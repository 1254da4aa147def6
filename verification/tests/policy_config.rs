use resonance::messages::{Role, RoleSet};
use resonance::policy_config::{first_error, selected_roles};
use resonance::wide::wide_nul;

#[test]
fn role_set_maps_to_the_matching_com_roles() {
    assert_eq!(selected_roles(RoleSet::default()), Vec::new());

    let all = selected_roles(RoleSet::all());
    assert_eq!(
        all,
        vec![
            (Role::Console, "console"),
            (Role::Multimedia, "multimedia"),
            (Role::Communications, "communications"),
        ]
    );

    let only_communications = RoleSet { console: false, multimedia: false, communications: true };
    assert_eq!(
        selected_roles(only_communications),
        vec![(Role::Communications, "communications")],
        "a role that was not selected must not be switched"
    );
}

#[test]
fn device_ids_are_terminated_for_the_com_call() {
    let id = "{0.0.0.00000000}.{11111111-2222-3333-4444-555555555555}";
    let wide = wide_nul(id);
    assert_eq!(wide.len(), id.len() + 1);
    assert_eq!(wide.last(), Some(&0), "the buffer must be NUL-terminated");
    assert_eq!(String::from_utf16(&wide[..wide.len() - 1]).unwrap(), id);
}

#[test]
fn the_first_error_is_the_one_reported() {
    assert_eq!(first_error::<u8>(vec![]), Ok(()));
    assert_eq!(first_error::<u8>(vec![Ok(()), Ok(())]), Ok(()));
    assert_eq!(first_error(vec![Ok(()), Err(3), Ok(()), Err(4)]), Err(3));
}
