//! Which roles a switch of the default endpoint reaches, and how it went.

use crate::messages::{Role, RoleSet};
use vstd::prelude::*;

verus! {

/// One role if it is selected.
pub open spec fn one_if(selected: bool, role: Role) -> Seq<Role> {
    if selected {
        seq![role]
    } else {
        Seq::empty()
    }
}

/// The roles of a set, in the order in which they are switched.
pub open spec fn roles_of(roles: RoleSet) -> Seq<Role> {
    one_if(roles.console, Role::Console) + one_if(roles.multimedia, Role::Multimedia) + one_if(
        roles.communications,
        Role::Communications,
    )
}

/// The name of a role in the log.
pub open spec fn role_name(role: Role) -> Seq<char> {
    match role {
        Role::Console => "console"@,
        Role::Multimedia => "multimedia"@,
        Role::Communications => "communications"@,
    }
}

/// The roles that a set selects, each with its name.
pub fn selected_roles(roles: RoleSet) -> (selected: Vec<(Role, &'static str)>)
    ensures
        selected@.map_values(|entry: (Role, &'static str)| entry.0) == roles_of(roles),
        forall|i: int|
            0 <= i < selected@.len() ==> (#[trigger] selected@[i]).1@ == role_name(selected@[i].0),
{
    let mut selected: Vec<(Role, &'static str)> = Vec::new();
    if roles.console {
        selected.push((Role::Console, "console"));
    }
    if roles.multimedia {
        selected.push((Role::Multimedia, "multimedia"));
    }
    if roles.communications {
        selected.push((Role::Communications, "communications"));
    }
    assert(selected@.map_values(|entry: (Role, &'static str)| entry.0) =~= roles_of(roles));
    selected
}

/// What a switch gives back once every role was tried: the first error, or
/// success where there was none.
pub fn first_error<E>(results: Vec<Result<(), E>>) -> (result: Result<(), E>)
    ensures
        match result {
            Ok(_) => forall|i: int| 0 <= i < results@.len() ==> (#[trigger] results@[i]) is Ok,
            Err(e) => exists|i: int|
                {
                    &&& 0 <= i < results@.len()
                    &&& #[trigger] results@[i] == Err::<(), E>(e)
                    &&& forall|j: int| 0 <= j < i ==> (#[trigger] results@[j]) is Ok
                },
        },
{
    let ghost all = results@;
    let mut rest = results;
    let mut result: Result<(), E> = Ok(());
    while rest.len() > 0
        invariant
            rest@.len() <= all.len(),
            rest@ == all.take(rest@.len() as int),
            match result {
                Ok(_) => forall|i: int|
                    rest@.len() <= i < all.len() ==> (#[trigger] all[i]) is Ok,
                Err(e) => exists|i: int|
                    {
                        &&& rest@.len() <= i < all.len()
                        &&& #[trigger] all[i] == Err::<(), E>(e)
                        &&& forall|j: int| rest@.len() <= j < i ==> (#[trigger] all[j]) is Ok
                    },
            },
        decreases rest@.len(),
    {
        let ghost n = rest@.len() as int;
        let last = rest.pop();
        assert(rest@ =~= all.take(n - 1));
        if let Some(outcome) = last {
            assert(outcome == all[n - 1]);
            if let Err(e) = outcome {
                result = Err(e);
                assert(all[n - 1] == Err::<(), E>(e));
            }
        }
    }
    result
}

/// A set selects a role exactly when the role is switched.
pub proof fn selected_exactly(roles: RoleSet)
    ensures
        roles_of(roles).contains(Role::Console) <==> roles.console,
        roles_of(roles).contains(Role::Multimedia) <==> roles.multimedia,
        roles_of(roles).contains(Role::Communications) <==> roles.communications,
        roles_of(roles).no_duplicates(),
{
    let all = roles_of(roles);
    let a = one_if(roles.console, Role::Console);
    let b = one_if(roles.multimedia, Role::Multimedia);
    let c = one_if(roles.communications, Role::Communications);
    if roles.console {
        assert(all[0] == Role::Console);
    }
    if roles.multimedia {
        assert(all[a.len() as int] == Role::Multimedia);
    }
    if roles.communications {
        assert(all[(a + b).len() as int] == Role::Communications);
    }
}

/// The roles are switched in the order console, multimedia, communications, each under
/// its own name.
pub proof fn roles_are_switched_in_order(roles: RoleSet, i: int, j: int)
    requires
        0 <= i < j < roles_of(roles).len(),
    ensures
        roles_of(roles)[j] != Role::Console,
        roles_of(roles)[i] != Role::Communications,
        role_name(Role::Console) == "console"@,
        role_name(Role::Multimedia) == "multimedia"@,
        role_name(Role::Communications) == "communications"@,
{
}

} // verus!
