use vstd::prelude::*;

verus! {

/// Number of roles learned before dispatch begins.
pub const ROLE_COUNT: usize = 5;

/// One of the learnable bindings, listed in the order in which they are
/// learned and in which they are compared during dispatch.
#[derive(Clone, Copy, Debug, PartialEq, Eq, Structural)]
pub enum Role {
    Format,
    Build,
    JumpToDefinition,
    ShowDefinition,
    Enter,
}

/// The fixed host action that a role triggers.
#[derive(Clone, Copy, Debug, PartialEq, Eq, Structural)]
pub enum HostAction {
    /// The "toggle-format" key combination.
    ToggleFormat,
    /// The "toggle-build" key combination.
    ToggleBuild,
    /// The single "jump" key.
    Jump,
    /// The "peek-definition" key combination.
    PeekDefinition,
    /// The single "confirm" key.
    Confirm,
}

/// The role at position `i` of the fixed order.
pub open spec fn role_at(i: int) -> Role {
    if i == 0 {
        Role::Format
    } else if i == 1 {
        Role::Build
    } else if i == 2 {
        Role::JumpToDefinition
    } else if i == 3 {
        Role::ShowDefinition
    } else {
        Role::Enter
    }
}

/// The position of a role in the fixed order.
pub open spec fn role_index(r: Role) -> int {
    match r {
        Role::Format => 0,
        Role::Build => 1,
        Role::JumpToDefinition => 2,
        Role::ShowDefinition => 3,
        Role::Enter => 4,
    }
}

/// The host action bound to a role.
pub open spec fn action_of(r: Role) -> HostAction {
    match r {
        Role::Format => HostAction::ToggleFormat,
        Role::Build => HostAction::ToggleBuild,
        Role::JumpToDefinition => HostAction::Jump,
        Role::ShowDefinition => HostAction::PeekDefinition,
        Role::Enter => HostAction::Confirm,
    }
}

/// The name under which a role is shown to the operator.
pub open spec fn role_name(r: Role) -> Seq<char> {
    match r {
        Role::Format => "Format"@,
        Role::Build => "Build"@,
        Role::JumpToDefinition => "Opening Definition"@,
        Role::ShowDefinition => "Inline Def"@,
        Role::Enter => "Enter"@,
    }
}

impl Role {
    /// The role at position `i` of the fixed order.
    pub fn from_index(i: usize) -> (r: Role)
        requires
            i < ROLE_COUNT,
        ensures
            r == role_at(i as int),
            role_index(r) == i as int,
    {
        if i == 0 {
            Role::Format
        } else if i == 1 {
            Role::Build
        } else if i == 2 {
            Role::JumpToDefinition
        } else if i == 3 {
            Role::ShowDefinition
        } else {
            Role::Enter
        }
    }

    /// The position of this role in the fixed order.
    pub fn index(&self) -> (r: usize)
        ensures
            r as int == role_index(*self),
            r < ROLE_COUNT,
    {
        match self {
            Role::Format => 0,
            Role::Build => 1,
            Role::JumpToDefinition => 2,
            Role::ShowDefinition => 3,
            Role::Enter => 4,
        }
    }

    /// The host action this role triggers.
    pub fn action(&self) -> (r: HostAction)
        ensures
            r == action_of(*self),
    {
        match self {
            Role::Format => HostAction::ToggleFormat,
            Role::Build => HostAction::ToggleBuild,
            Role::JumpToDefinition => HostAction::Jump,
            Role::ShowDefinition => HostAction::PeekDefinition,
            Role::Enter => HostAction::Confirm,
        }
    }

    /// The name under which this role is shown to the operator.
    pub fn name(&self) -> (r: &'static str)
        ensures
            r@ == role_name(*self),
    {
        match self {
            Role::Format => "Format",
            Role::Build => "Build",
            Role::JumpToDefinition => "Opening Definition",
            Role::ShowDefinition => "Inline Def",
            Role::Enter => "Enter",
        }
    }
}

} // verus!
