use vstd::prelude::*;

verus! {

/// What the operator picked from the menu.
#[derive(Debug, PartialEq, Eq, Clone, Copy)]
pub enum MenuCommand {
    AddTask,
    RemoveTask,
    CompleteTask,
    ListTasks,
    SaveAndExit,
    Invalid,
}

/// The menu entry was not a number.
#[derive(Debug, PartialEq, Eq)]
pub struct InputParseError;

/// The command that menu number `n` selects.
pub open spec fn command_of(n: u32) -> MenuCommand {
    if n == 1 {
        MenuCommand::AddTask
    } else if n == 2 {
        MenuCommand::RemoveTask
    } else if n == 3 {
        MenuCommand::CompleteTask
    } else if n == 4 {
        MenuCommand::ListTasks
    } else if n == 5 {
        MenuCommand::SaveAndExit
    } else {
        MenuCommand::Invalid
    }
}

/// Value of a string of decimal digits.
pub open spec fn digits_value(s: Seq<char>) -> nat
    decreases s.len(),
{
    if s.len() == 0 {
        0
    } else {
        digits_value(s.drop_last()) * 10 + (s.last() as nat - '0' as nat) as nat
    }
}

/// The unsigned 32-bit number that `s` spells in decimal: an optional `+`
/// and then one or more ASCII digits, whose value fits.
pub open spec fn decimal_u32(s: Seq<char>) -> Option<u32> {
    let digits = if s.len() > 0 && s[0] == '+' { s.drop_first() } else { s };
    if digits.len() > 0 && (forall|i: int| 0 <= i < digits.len() ==> '0' <= #[trigger] digits[i] <= '9')
        && digits_value(digits) <= u32::MAX {
        Some(digits_value(digits) as u32)
    } else {
        None
    }
}

/// What `str::trim` leaves of `s`.
pub uninterp spec fn trimmed(s: Seq<char>) -> Seq<char>;

/// Relies on str::trim: the result depends on the characters alone.
#[verifier::external_body]
fn trim_str(s: &str) -> (r: &str)
    ensures
        r@ == trimmed(s@),
{
    s.trim()
}

/// Relies on `<u32 as FromStr>::from_str`, which accepts exactly an optional
/// `+` followed by decimal digits whose value fits in a `u32`.
#[verifier::external_body]
fn parse_u32(s: &str) -> (r: Option<u32>)
    ensures
        r == decimal_u32(s@),
{
    s.parse::<u32>().ok()
}

/// The command for menu number `n`: 1 adds, 2 removes, 3 completes, 4 lists,
/// 5 saves and exits, anything else is invalid.
pub fn command_for(n: u32) -> (c: MenuCommand)
    ensures
        c == command_of(n),
{
    if n == 1 {
        MenuCommand::AddTask
    } else if n == 2 {
        MenuCommand::RemoveTask
    } else if n == 3 {
        MenuCommand::CompleteTask
    } else if n == 4 {
        MenuCommand::ListTasks
    } else if n == 5 {
        MenuCommand::SaveAndExit
    } else {
        MenuCommand::Invalid
    }
}

/// The command that a menu line selects, once surrounding whitespace is
/// dropped; a line that is not a number is an error.
pub fn parse_menu_choice(line: &str) -> (r: Result<MenuCommand, InputParseError>)
    ensures
        match decimal_u32(trimmed(line@)) {
            Some(n) => r == Ok::<MenuCommand, InputParseError>(command_of(n)),
            None => r is Err,
        },
{
    match parse_u32(trim_str(line)) {
        Some(n) => Ok(command_for(n)),
        None => Err(InputParseError),
    }
}

/// A description or identifier typed by the operator, without surrounding
/// whitespace.
pub fn input_text(line: &str) -> (r: String)
    ensures
        r@ == trimmed(line@),
{
    String::from_str(trim_str(line))
}

} // verus!
