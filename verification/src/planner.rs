//! The interactive planner's choices: its two modes and how the answers
//! typed at its prompts are read.
use vstd::prelude::*;
use crate::text::{chars_of, owned, string_from_chars, trim_chars, trimmed};
use crate::types::{ExperienceLevel, ProjectConstraints};

verus! {

/// How the planner frames a session.
#[derive(Debug, Clone, Copy, PartialEq, Eq, Structural)]
pub enum PlannerMode {
    Planning,
    Storytelling,
}

impl PlannerMode {
    /// A one-line description of the mode.
    pub fn description(&self) -> (r: &'static str)
        ensures
            r@ == match self {
                PlannerMode::Planning => "Iterative Planning - Break down complex goals into actionable steps"@,
                PlannerMode::Storytelling => "Adventure Storytelling - Traditional narrative exploration"@,
            },
    {
        match self {
            PlannerMode::Planning => "Iterative Planning - Break down complex goals into actionable steps",
            PlannerMode::Storytelling => "Adventure Storytelling - Traditional narrative exploration",
        }
    }

    /// The point of view the mode puts the user in.
    pub fn perspective(&self) -> (r: &'static str)
        ensures
            r@ == match self {
                PlannerMode::Planning => "You are planning and designing a system"@,
                PlannerMode::Storytelling => "You are experiencing an adventure story"@,
            },
    {
        match self {
            PlannerMode::Planning => "You are planning and designing a system",
            PlannerMode::Storytelling => "You are experiencing an adventure story",
        }
    }
}

pub(crate) fn trimmed_is(input: &str, lit: &str) -> (r: bool)
    ensures
        r == (trimmed(input@) == lit@),
{
    let cs = chars_of(input);
    let t = trim_chars(cs.as_slice());
    let s = string_from_chars(t.as_slice());
    crate::text::str_eq(s.as_str(), lit)
}

/// The mode picked at the mode prompt: storytelling for "2", planning for
/// anything else (surrounding whitespace ignored).
pub fn mode_from_choice(input: &str) -> (m: PlannerMode)
    ensures
        m == if trimmed(input@) == "2"@ {
            PlannerMode::Storytelling
        } else {
            PlannerMode::Planning
        },
{
    if trimmed_is(input, "2") {
        PlannerMode::Storytelling
    } else {
        PlannerMode::Planning
    }
}

/// The experience level named by a menu answer ("1" to "4"), if any.
pub open spec fn level_named(t: Seq<char>) -> Option<ExperienceLevel> {
    if t == "1"@ {
        Some(ExperienceLevel::Beginner)
    } else if t == "2"@ {
        Some(ExperienceLevel::Intermediate)
    } else if t == "3"@ {
        Some(ExperienceLevel::Advanced)
    } else if t == "4"@ {
        Some(ExperienceLevel::Expert)
    } else {
        None
    }
}

/// The experience level picked at the level prompt, and whether the answer
/// was one of the offered choices; an unrecognised answer gives the
/// intermediate level.
pub fn experience_level_from_choice(input: &str) -> (r: (ExperienceLevel, bool))
    ensures
        r.1 == level_named(trimmed(input@)) is Some,
        r.0 == match level_named(trimmed(input@)) {
            Some(l) => l,
            None => ExperienceLevel::Intermediate,
        },
{
    if trimmed_is(input, "1") {
        (ExperienceLevel::Beginner, true)
    } else if trimmed_is(input, "2") {
        (ExperienceLevel::Intermediate, true)
    } else if trimmed_is(input, "3") {
        (ExperienceLevel::Advanced, true)
    } else if trimmed_is(input, "4") {
        (ExperienceLevel::Expert, true)
    } else {
        (ExperienceLevel::Intermediate, false)
    }
}

/// The value of a string of ASCII decimal digits.
pub open spec fn digits_value(s: Seq<char>) -> nat
    decreases s.len(),
{
    if s.len() == 0 {
        0
    } else {
        digits_value(s.drop_last()) * 10 + ((s.last() as int) - ('0' as int)) as nat
    }
}

/// Every character is an ASCII decimal digit.
pub open spec fn all_digits(s: Seq<char>) -> bool {
    forall|i: int| 0 <= i < s.len() ==> '0' <= #[trigger] s[i] <= '9'
}

/// The digits of an unsigned decimal number: an optional `+` sign, then the
/// rest.
pub open spec fn unsigned_digits(s: Seq<char>) -> Seq<char> {
    if s.len() > 0 && s[0] == '+' {
        s.drop_first()
    } else {
        s
    }
}

/// The `u32` a text denotes as `str::parse::<u32>` reads it: one or more
/// ASCII digits after an optional `+`, with a value that fits.
pub open spec fn u32_of(s: Seq<char>) -> Option<u32> {
    let d = unsigned_digits(s);
    if d.len() > 0 && all_digits(d) && digits_value(d) <= u32::MAX {
        Some(digits_value(d) as u32)
    } else {
        None
    }
}

proof fn lemma_digits_value_grows(s: Seq<char>, k: int)
    requires
        0 <= k <= s.len(),
        all_digits(s),
    ensures
        digits_value(s.take(k)) <= digits_value(s),
    decreases s.len() - k,
{
    if k < s.len() {
        lemma_digits_value_grows(s, k + 1);
        assert(s.take(k + 1).drop_last() =~= s.take(k));
    } else {
        assert(s.take(k) =~= s);
    }
}

/// Reads an unsigned 32-bit decimal number, as `str::parse::<u32>` does.
pub fn parse_u32(s: &str) -> (r: Option<u32>)
    ensures
        r == u32_of(s@),
{
    let cs = chars_of(s);
    let start: usize = if cs.len() > 0 && cs[0] == '+' {
        1
    } else {
        0
    };
    let ghost d = unsigned_digits(s@);
    proof {
        assert(d =~= cs@.subrange(start as int, cs@.len() as int));
    }
    if start >= cs.len() {
        return None;
    }
    let n = cs.len();
    let mut value: u64 = 0;
    for i in start..n
        invariant
            n == cs@.len(),
            start <= n,
            cs@ == s@,
            d == cs@.subrange(start as int, n as int),
            d == unsigned_digits(s@),
            forall|j: int| 0 <= j < i - start ==> '0' <= #[trigger] d[j] <= '9',
            value == digits_value(d.take(i - start)),
            value <= u32::MAX,
    {
        let c = cs[i];
        if !('0' <= c && c <= '9') {
            proof {
                assert(d[i - start] == c);
                assert(!('0' <= d[i - start] <= '9'));
                assert(!all_digits(d));
            }
            return None;
        }
        let digit = (c as u64) - ('0' as u64);
        let next = value * 10 + digit;
        proof {
            assert(d.take(i - start + 1).drop_last() =~= d.take(i - start));
            assert(d.take(i - start + 1).last() == c);
            assert(digits_value(d.take(i - start + 1)) == next);
        }
        if next > 4294967295u64 {
            proof {
                assert forall|j: int| 0 <= j < i - start + 1 implies '0' <= #[trigger] d[j] <= '9' by {}
                if all_digits(d) {
                    lemma_digits_value_grows(d, i - start + 1);
                    assert(digits_value(d) > u32::MAX);
                }
            }
            return None;
        }
        value = next;
    }
    proof {
        assert(d.take(n - start) =~= d);
    }
    Some(value as u32)
}

/// The `usize` a text denotes as `str::parse::<usize>` reads it: one or more
/// ASCII digits after an optional `+`, with a value that fits.
pub open spec fn usize_of(s: Seq<char>) -> Option<usize> {
    let d = unsigned_digits(s);
    if d.len() > 0 && all_digits(d) && digits_value(d) <= usize::MAX {
        Some(digits_value(d) as usize)
    } else {
        None
    }
}

/// Reads an unsigned decimal number of machine size, as
/// `str::parse::<usize>` does.
pub fn parse_usize(s: &str) -> (r: Option<usize>)
    ensures
        r == usize_of(s@),
{
    let cs = chars_of(s);
    let start: usize = if cs.len() > 0 && cs[0] == '+' {
        1
    } else {
        0
    };
    let ghost d = unsigned_digits(s@);
    proof {
        assert(d =~= cs@.subrange(start as int, cs@.len() as int));
    }
    if start >= cs.len() {
        return None;
    }
    let n = cs.len();
    let mut value: u128 = 0;
    for i in start..n
        invariant
            n == cs@.len(),
            start <= n,
            cs@ == s@,
            d == cs@.subrange(start as int, n as int),
            d == unsigned_digits(s@),
            forall|j: int| 0 <= j < i - start ==> '0' <= #[trigger] d[j] <= '9',
            value == digits_value(d.take(i - start)),
            value <= usize::MAX,
    {
        let c = cs[i];
        if !('0' <= c && c <= '9') {
            proof {
                assert(d[i - start] == c);
                assert(!('0' <= d[i - start] <= '9'));
                assert(!all_digits(d));
            }
            return None;
        }
        let digit = (c as u128) - ('0' as u128);
        let next = value * 10 + digit;
        proof {
            assert(d.take(i - start + 1).drop_last() =~= d.take(i - start));
            assert(d.take(i - start + 1).last() == c);
            assert(digits_value(d.take(i - start + 1)) == next);
        }
        if next > usize::MAX as u128 {
            proof {
                assert forall|j: int| 0 <= j < i - start + 1 implies '0' <= #[trigger] d[j] <= '9' by {}
                if all_digits(d) {
                    lemma_digits_value_grows(d, i - start + 1);
                    assert(digits_value(d) > usize::MAX);
                }
            }
            return None;
        }
        value = next;
    }
    proof {
        assert(d.take(n - start) =~= d);
    }
    Some(value as usize)
}

/// The constraints gathered from the project questions: a timeline and a
/// budget when the trimmed answers are not empty, a team size when the
/// trimmed answer reads as a number, and no further constraints.
pub fn project_constraints_from_answers(
    timeline: &str,
    team_size: &str,
    budget: &str,
    experience_level: ExperienceLevel,
) -> (c: ProjectConstraints)
    ensures
        c.timeline matches Some(t) ==> t@ == trimmed(timeline@) && t@.len() > 0,
        c.timeline is None ==> trimmed(timeline@).len() == 0,
        c.team_size == u32_of(trimmed(team_size@)),
        c.budget matches Some(b) ==> b@ == trimmed(budget@) && b@.len() > 0,
        c.budget is None ==> trimmed(budget@).len() == 0,
        c.experience_level == experience_level,
        c.technical_constraints@.len() == 0,
        c.business_constraints@.len() == 0,
{
    let t = trim_chars(chars_of(timeline).as_slice());
    let timeline_value = if t.len() == 0 {
        None
    } else {
        Some(string_from_chars(t.as_slice()))
    };
    let team = string_from_chars(trim_chars(chars_of(team_size).as_slice()).as_slice());
    let b = trim_chars(chars_of(budget).as_slice());
    let budget_value = if b.len() == 0 {
        None
    } else {
        Some(string_from_chars(b.as_slice()))
    };
    ProjectConstraints {
        timeline: timeline_value,
        team_size: parse_u32(team.as_str()),
        experience_level,
        budget: budget_value,
        technical_constraints: Vec::new(),
        business_constraints: Vec::new(),
    }
}

/// An entry of the planner's main menu.
#[derive(Debug, Clone, Copy, PartialEq, Eq, Structural)]
pub enum PlannerMenuChoice {
    NewStory,
    LoadStory,
    ContinueStory,
    NavigateTree,
    SaveStory,
    ViewTree,
    SwitchMode,
    Quit,
    Invalid,
}

/// The main-menu entry a trimmed answer picks: "1" to "8" in menu order,
/// anything else is invalid.
pub open spec fn planner_menu_for(t: Seq<char>) -> PlannerMenuChoice {
    if t == "1"@ {
        PlannerMenuChoice::NewStory
    } else if t == "2"@ {
        PlannerMenuChoice::LoadStory
    } else if t == "3"@ {
        PlannerMenuChoice::ContinueStory
    } else if t == "4"@ {
        PlannerMenuChoice::NavigateTree
    } else if t == "5"@ {
        PlannerMenuChoice::SaveStory
    } else if t == "6"@ {
        PlannerMenuChoice::ViewTree
    } else if t == "7"@ {
        PlannerMenuChoice::SwitchMode
    } else if t == "8"@ {
        PlannerMenuChoice::Quit
    } else {
        PlannerMenuChoice::Invalid
    }
}

/// The main-menu entry an answer picks (surrounding whitespace ignored).
pub fn planner_menu_choice(input: &str) -> (c: PlannerMenuChoice)
    ensures
        c == planner_menu_for(trimmed(input@)),
{
    if trimmed_is(input, "1") {
        PlannerMenuChoice::NewStory
    } else if trimmed_is(input, "2") {
        PlannerMenuChoice::LoadStory
    } else if trimmed_is(input, "3") {
        PlannerMenuChoice::ContinueStory
    } else if trimmed_is(input, "4") {
        PlannerMenuChoice::NavigateTree
    } else if trimmed_is(input, "5") {
        PlannerMenuChoice::SaveStory
    } else if trimmed_is(input, "6") {
        PlannerMenuChoice::ViewTree
    } else if trimmed_is(input, "7") {
        PlannerMenuChoice::SwitchMode
    } else if trimmed_is(input, "8") {
        PlannerMenuChoice::Quit
    } else {
        PlannerMenuChoice::Invalid
    }
}

/// An answer to a numbered list: the entry picked (counting from zero), a
/// number outside the list, or no number at all.
#[derive(Debug, Clone, Copy, PartialEq, Eq, Structural)]
pub enum ListPick {
    Entry(usize),
    OutOfRange,
    NotANumber,
}

/// What a trimmed answer picks from a list of `count` entries numbered from 1.
pub open spec fn list_pick_for(t: Seq<char>, count: int) -> ListPick {
    match usize_of(t) {
        Some(k) => if 1 <= k <= count {
            ListPick::Entry((k - 1) as usize)
        } else {
            ListPick::OutOfRange
        },
        None => ListPick::NotANumber,
    }
}

fn pick_from_trimmed(t: &str, count: usize) -> (r: ListPick)
    ensures
        r == list_pick_for(t@, count as int),
{
    match parse_usize(t) {
        Some(k) => if 1 <= k && k <= count {
            ListPick::Entry(k - 1)
        } else {
            ListPick::OutOfRange
        },
        None => ListPick::NotANumber,
    }
}

fn trimmed_text(input: &str) -> (r: String)
    ensures
        r@ == trimmed(input@),
{
    let cs = chars_of(input);
    let t = trim_chars(cs.as_slice());
    string_from_chars(t.as_slice())
}

/// What an answer picks from a list of `count` entries numbered from 1
/// (surrounding whitespace ignored).
pub fn list_pick(input: &str, count: usize) -> (r: ListPick)
    ensures
        r == list_pick_for(trimmed(input@), count as int),
{
    let t = trimmed_text(input);
    pick_from_trimmed(t.as_str(), count)
}

/// An answer at a node of the story.
#[derive(Debug, Clone, Copy, PartialEq, Eq, Structural)]
pub enum NodeAction {
    OwnDirection,
    NewOptions,
    History,
    Back,
    Listed(ListPick),
}

/// The action a trimmed answer at a node with `count` options asks for:
/// "c", "r", "h" and "b" for the fixed actions, else an option by number.
pub open spec fn node_action_for(t: Seq<char>, count: int) -> NodeAction {
    if t == "c"@ {
        NodeAction::OwnDirection
    } else if t == "r"@ {
        NodeAction::NewOptions
    } else if t == "h"@ {
        NodeAction::History
    } else if t == "b"@ {
        NodeAction::Back
    } else {
        NodeAction::Listed(list_pick_for(t, count))
    }
}

/// The action an answer at a node with `count` options asks for
/// (surrounding whitespace ignored).
pub fn node_action(input: &str, count: usize) -> (r: NodeAction)
    ensures
        r == node_action_for(trimmed(input@), count as int),
{
    let t = trimmed_text(input);
    if crate::text::str_eq(t.as_str(), "c") {
        NodeAction::OwnDirection
    } else if crate::text::str_eq(t.as_str(), "r") {
        NodeAction::NewOptions
    } else if crate::text::str_eq(t.as_str(), "h") {
        NodeAction::History
    } else if crate::text::str_eq(t.as_str(), "b") {
        NodeAction::Back
    } else {
        NodeAction::Listed(pick_from_trimmed(t.as_str(), count))
    }
}

/// An answer in the node list: back to the menu, or a node by number.
#[derive(Debug, Clone, Copy, PartialEq, Eq, Structural)]
pub enum NavigationPick {
    Back,
    Listed(ListPick),
}

/// What an answer in a list of `count` nodes picks: "back" returns,
/// anything else is read as a node number (surrounding whitespace ignored).
pub fn navigation_pick(input: &str, count: usize) -> (r: NavigationPick)
    ensures
        r == if trimmed(input@) == "back"@ {
            NavigationPick::Back
        } else {
            NavigationPick::Listed(list_pick_for(trimmed(input@), count as int))
        },
{
    let t = trimmed_text(input);
    if crate::text::str_eq(t.as_str(), "back") {
        NavigationPick::Back
    } else {
        NavigationPick::Listed(pick_from_trimmed(t.as_str(), count))
    }
}

/// The constraints a story is told under: open-ended, for one person at the
/// given experience level, with no budget and no further constraints.
pub fn storytelling_constraints(experience_level: ExperienceLevel) -> (c: ProjectConstraints)
    ensures
        c.timeline matches Some(t) && t@ == "Open-ended"@,
        c.team_size == Some(1u32),
        c.experience_level == experience_level,
        c.budget is None,
        c.technical_constraints@.len() == 0,
        c.business_constraints@.len() == 0,
{
    ProjectConstraints {
        timeline: Some(owned("Open-ended")),
        team_size: Some(1),
        experience_level,
        budget: None,
        technical_constraints: Vec::new(),
        business_constraints: Vec::new(),
    }
}

} // verus!
