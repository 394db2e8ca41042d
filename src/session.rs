use vstd::prelude::*;

verus! {

/// A setup failure that ends the run before learning begins.
#[derive(Clone, Copy, Debug, PartialEq, Eq, Structural)]
pub enum SetupError {
    /// No input port is available.
    NoPortFound,
    /// The operator's answer names no listed port.
    InvalidSelection,
}

/// How the input port is to be chosen among `count` ports.
#[derive(Clone, Copy, Debug, PartialEq, Eq, Structural)]
pub enum PortPlan {
    /// The only port, at index 0, is taken without asking.
    OnlyPort,
    /// The operator picks one of several ports by index.
    AskOperator,
}

/// Decides how to choose a port: none is an error, one is taken as is,
/// several are offered to the operator.
pub fn port_plan(count: usize) -> (r: Result<PortPlan, SetupError>)
    ensures
        count == 0 <==> r == Err::<PortPlan, SetupError>(SetupError::NoPortFound),
        count == 1 <==> r == Ok::<PortPlan, SetupError>(PortPlan::OnlyPort),
        count > 1 <==> r == Ok::<PortPlan, SetupError>(PortPlan::AskOperator),
{
    if count == 0 {
        Err(SetupError::NoPortFound)
    } else if count == 1 {
        Ok(PortPlan::OnlyPort)
    } else {
        Ok(PortPlan::AskOperator)
    }
}

/// Checks the operator's answer, already read as an index (`None` where it
/// was not a number), against the `count` listed ports.
pub fn select_port(count: usize, answer: Option<usize>) -> (r: Result<usize, SetupError>)
    ensures
        match answer {
            Some(i) => if i < count {
                r == Ok::<usize, SetupError>(i)
            } else {
                r == Err::<usize, SetupError>(SetupError::InvalidSelection)
            },
            None => r == Err::<usize, SetupError>(SetupError::InvalidSelection),
        },
{
    match answer {
        Some(i) => if i < count {
            Ok(i)
        } else {
            Err(SetupError::InvalidSelection)
        },
        None => Err(SetupError::InvalidSelection),
    }
}

impl SetupError {
    /// The message shown to the operator before the run ends.
    pub fn message(&self) -> (r: &'static str)
        ensures
            *self == SetupError::NoPortFound ==> r@ == "no input port found"@,
            *self == SetupError::InvalidSelection ==> r@ == "invalid input port selected"@,
    {
        match self {
            SetupError::NoPortFound => "no input port found",
            SetupError::InvalidSelection => "invalid input port selected",
        }
    }
}

} // verus!
