//! Reading a language model's reply to a story request: the situation it
//! describes and the numbered choices it offers.
use vstd::prelude::*;
use crate::prompts::{join, joined};
use crate::qa::{pieces, starts_with, starts_with_lit, texts_of};
use crate::text::{
    append_str, chars_between, chars_of, owned, string_from_chars, to_uppercase, trim_chars, trimmed,
    uppercase_text,
};

verus! {

/// The situation text, the choices found so far, and the current section
/// (0: none yet, 1: situation, 2: choices).
pub type ReplyState = (Seq<char>, Seq<Seq<char>>, int);

/// The line starts with a choice number from 1 to `max` followed by a dot.
pub open spec fn numbered_line(line: Seq<char>, max: int) -> bool {
    line.len() >= 2 && '1' <= line[0] && (line[0] as u32) < ('1' as u32) + max && line[1] == '.'
}

/// The situation given on a `SITUATION:` line: the rest of the line when it
/// starts with the marker as written, else the whole line, trimmed.
pub open spec fn situation_text(line: Seq<char>) -> Seq<char> {
    if starts_with(line, "SITUATION:"@) {
        trimmed(line.skip(10))
    } else {
        trimmed(line)
    }
}

/// Reads one line of a reply. A line whose upper-case form starts with
/// `SITUATION:` starts the situation; one starting with `CHOICES:` starts
/// the choices; a numbered line adds a choice (its text after the dot) while
/// in the choices; any other non-empty line continues the situation while in
/// it, separated by a space.
pub open spec fn read_line(st: ReplyState, raw: Seq<char>, max: int) -> ReplyState {
    let line = trimmed(raw);
    let up = uppercase_text(line);
    if starts_with(up, "SITUATION:"@) {
        (situation_text(line), st.1, 1)
    } else if starts_with(up, "CHOICES:"@) {
        (st.0, st.1, 2)
    } else if numbered_line(line, max) {
        if st.2 == 2 {
            (st.0, st.1.push(trimmed(line.skip(2))), 2)
        } else {
            st
        }
    } else if line.len() > 0 && st.2 == 1 {
        (if st.0.len() > 0 {
            st.0 + " "@ + line
        } else {
            line
        }, st.1, 1)
    } else {
        st
    }
}

/// The state after reading the given lines in order.
pub open spec fn read_lines(lines: Seq<Seq<char>>, max: int) -> ReplyState
    decreases lines.len(),
{
    if lines.len() == 0 {
        (Seq::empty(), Seq::empty(), 0)
    } else {
        read_line(read_lines(lines.drop_last(), max), lines.last(), max)
    }
}

/// The first three lines, or all of them when there are fewer.
pub open spec fn first_three(lines: Seq<Seq<char>>) -> Seq<Seq<char>> {
    if lines.len() < 3 {
        lines
    } else {
        lines.take(3)
    }
}

/// The situation and choices of a reply whose choices are numbered up to
/// `max`: when no situation was found, the first three lines of the reply
/// joined by spaces; when no choice was found, the given fallback choices.
pub open spec fn parsed_reply(
    response: Seq<char>,
    max: int,
    fallback: Seq<Seq<char>>,
) -> (Seq<char>, Seq<Seq<char>>) {
    let st = read_lines(pieces(response, '\n'), max);
    (
        if st.0.len() == 0 {
            joined(first_three(pieces(response, '\n')), " "@)
        } else {
            st.0
        },
        if st.1.len() == 0 {
            fallback
        } else {
            st.1
        },
    )
}

fn read_reply_line(
    situation: &mut String,
    choices: &mut Vec<String>,
    section: &mut u8,
    raw: &str,
    max: usize,
)
    requires
        max <= 9,
        *old(section) <= 2,
    ensures
        (final(situation)@, texts_of(final(choices)@), *final(section) as int) == read_line(
            (old(situation)@, texts_of(old(choices)@), *old(section) as int),
            raw@,
            max as int,
        ),
        *final(section) <= 2,
{
    let line = trim_chars(chars_of(raw).as_slice());
    let line_text = string_from_chars(line.as_slice());
    let up = chars_of(to_uppercase(line_text.as_str()).as_str());
    proof {
        reveal_strlit("SITUATION:");
    }
    if starts_with_lit(&up, "SITUATION:") {
        let rest = if starts_with_lit(&line, "SITUATION:") {
            let tail = chars_between(line.as_slice(), 10, line.len());
            proof {
                assert(tail@ =~= line@.skip(10));
            }
            trim_chars(tail.as_slice())
        } else {
            trim_chars(line.as_slice())
        };
        *situation = string_from_chars(rest.as_slice());
        *section = 1;
    } else if starts_with_lit(&up, "CHOICES:") {
        *section = 2;
    } else if line.len() >= 2 && '1' <= line[0] && (line[0] as u32) < ('1' as u32) + (max as u32)
        && line[1] == '.' {
        if *section == 2 {
            let tail = chars_between(line.as_slice(), 2, line.len());
            proof {
                assert(tail@ =~= line@.skip(2));
            }
            let choice = string_from_chars(trim_chars(tail.as_slice()).as_slice());
            let ghost before = choices@;
            choices.push(choice);
            proof {
                assert(texts_of(choices@) =~= texts_of(before).push(choice@));
            }
        }
    } else if line.len() > 0 && *section == 1 {
        if !situation.as_str().is_empty() {
            append_str(situation, " ");
        } else {
            proof {
                assert(old(situation)@.len() == 0);
                assert(old(situation)@ + line@ =~= line@);
            }
        }
        append_str(situation, line_text.as_str());
    }
}

/// Reads a reply whose choices are numbered from 1 up to `max` (at most 9),
/// with the given fallback choices.
pub fn parse_reply(response: &str, max: usize, fallback: Vec<String>) -> (r: (String, Vec<String>))
    requires
        max <= 9,
    ensures
        (r.0@, texts_of(r.1@)) == parsed_reply(response@, max as int, texts_of(fallback@)),
{
    let cs = chars_of(response);
    let lines = crate::qa::split_lines(&cs);
    let mut situation = String::new();
    let mut choices: Vec<String> = Vec::new();
    let mut section: u8 = 0;
    let n = lines.len();
    for i in 0..n
        invariant
            n == lines@.len(),
            max <= 9,
            section <= 2,
            texts_of(lines@) == pieces(response@, '\n'),
            (situation@, texts_of(choices@), section as int) == read_lines(
                texts_of(lines@).take(i as int),
                max as int,
            ),
    {
        proof {
            assert(texts_of(lines@).take(i + 1).drop_last() =~= texts_of(lines@).take(i as int));
            assert(texts_of(lines@).take(i + 1).last() == lines@[i as int]@);
        }
        read_reply_line(&mut situation, &mut choices, &mut section, lines[i].as_str(), max);
    }
    proof {
        assert(texts_of(lines@).take(n as int) =~= texts_of(lines@));
    }
    let situation = if situation.as_str().is_empty() {
        let mut first: Vec<String> = Vec::new();
        let k = if n < 3 {
            n
        } else {
            3
        };
        for j in 0..k
            invariant
                k <= n,
                n == lines@.len(),
                texts_of(first@) == texts_of(lines@).take(j as int),
        {
            let ghost before = first@;
            first.push(lines[j].clone());
            proof {
                assert(first@ =~= before.push(lines@[j as int]));
                assert(texts_of(first@) =~= texts_of(before).push(lines@[j as int]@));
                assert(texts_of(lines@).take(j + 1) =~= texts_of(lines@).take(j as int).push(
                    lines@[j as int]@,
                ));
            }
        }
        proof {
            if n < 3 {
                assert(texts_of(lines@).take(k as int) =~= texts_of(lines@));
            }
            assert(texts_of(first@) == first_three(pieces(response@, '\n')));
            assert(first@.map_values(|p: String| p@) == texts_of(first@));
        }
        join(&first, " ")
    } else {
        situation
    };
    let choices = if choices.len() == 0 {
        fallback
    } else {
        choices
    };
    (situation, choices)
}

/// The choices offered when an OpenAI reply names none.
pub open spec fn openai_fallback() -> Seq<Seq<char>> {
    seq!["Continue the adventure"@, "Look around carefully"@, "Try a different approach"@]
}

/// The choices offered when a reply to the planning engine names none.
pub open spec fn planning_fallback() -> Seq<Seq<char>> {
    seq![
        "What if we broke this into smaller, more manageable pieces?"@,
        "Should we gather more requirements and context first?"@,
        "It might be worth starting with a proof of concept"@,
        "We could research what solutions already exist"@,
    ]
}

/// Reads a reply from the OpenAI engine: choices numbered 1 to 3.
pub fn parse_openai_story_response(response: &str) -> (r: (String, Vec<String>))
    ensures
        (r.0@, texts_of(r.1@)) == parsed_reply(response@, 3, openai_fallback()),
{
    let fallback = vec![
        owned("Continue the adventure"),
        owned("Look around carefully"),
        owned("Try a different approach"),
    ];
    proof {
        assert(texts_of(fallback@) =~= openai_fallback());
    }
    parse_reply(response, 3, fallback)
}

/// Reads a reply to the planning engine (the one whose fallback choices are planning moves): choices numbered 1 to 4.
pub fn parse_planning_story_response(response: &str) -> (r: (String, Vec<String>))
    ensures
        (r.0@, texts_of(r.1@)) == parsed_reply(response@, 4, planning_fallback()),
{
    let fallback = vec![
        owned("What if we broke this into smaller, more manageable pieces?"),
        owned("Should we gather more requirements and context first?"),
        owned("It might be worth starting with a proof of concept"),
        owned("We could research what solutions already exist"),
    ];
    proof {
        assert(texts_of(fallback@) =~= planning_fallback());
    }
    parse_reply(response, 4, fallback)
}

} // verus!
