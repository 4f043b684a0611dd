//! The names stories and planning sessions are saved under, and the
//! choice of a saved file from a numbered list.
use vstd::prelude::*;
use crate::text::{
    alphanumeric_char, append_str, chars_of, is_alphanumeric, lowercase_text, owned, prefix, prefix_string, push_char, string_from_chars,
    to_lowercase, trim_chars, trimmed, utf8_len,
};

verus! {

/// The characters of a title kept in a file name: letters, digits and
/// spaces, each space written as an underscore.
pub open spec fn kept_title_chars(t: Seq<char>) -> Seq<char>
    decreases t.len(),
{
    if t.len() == 0 {
        Seq::empty()
    } else {
        let rest = kept_title_chars(t.drop_last());
        let c = t.last();
        if c == ' ' {
            rest.push('_')
        } else if alphanumeric_char(c) {
            rest.push(c)
        } else {
            rest
        }
    }
}

/// The title part of a saved file's name: the kept characters in lower
/// case, cut to (at most) their first fifty characters when they take more
/// than fifty bytes.
pub open spec fn safe_title(title: Seq<char>) -> Seq<char> {
    let s = lowercase_text(kept_title_chars(title));
    if vstd::utf8::encode_utf8(s).len() > 50 {
        prefix(s, 50)
    } else {
        s
    }
}

/// Computes `kept_title_chars`.
pub fn keep_title_chars(title: &str) -> (r: String)
    ensures
        r@ == kept_title_chars(title@),
{
    let cs = chars_of(title);
    let mut r = String::new();
    let n = cs.len();
    for i in 0..n
        invariant
            n == cs@.len(),
            cs@ == title@,
            r@ == kept_title_chars(title@.take(i as int)),
    {
        proof {
            assert(title@.take(i + 1).drop_last() =~= title@.take(i as int));
            assert(title@.take(i + 1).last() == cs@[i as int]);
        }
        let c = cs[i];
        if c == ' ' {
            push_char(&mut r, '_');
        } else if is_alphanumeric(c) {
            push_char(&mut r, c);
        }
    }
    proof {
        assert(title@.take(n as int) =~= title@);
    }
    r
}

/// Computes `safe_title`.
pub fn safe_title_of(title: &str) -> (r: String)
    ensures
        r@ == safe_title(title@),
{
    let kept = keep_title_chars(title);
    let lowered = to_lowercase(kept.as_str());
    let cs = chars_of(lowered.as_str());
    if utf8_len(&cs) > 50 {
        prefix_string(lowered.as_str(), 50)
    } else {
        lowered
    }
}

/// `s` ends with `w`.
pub open spec fn ends_with(s: Seq<char>, w: Seq<char>) -> bool {
    w.len() <= s.len() && s.skip(s.len() - w.len()) == w
}

/// The name a file is saved under. With a name entered, that name, with
/// ".json" added unless it ends so; with none, `prefix`, the title part of
/// the name, a hyphen, the time stamp and ".json".
pub open spec fn saved_name(prefix: Seq<char>, title: Seq<char>, entered: Seq<char>, stamp: Seq<char>) -> Seq<char> {
    if entered.len() == 0 {
        prefix + safe_title(title) + "-"@ + stamp + ".json"@
    } else if ends_with(entered, ".json"@) {
        entered
    } else {
        entered + ".json"@
    }
}

fn ends_with_json(s: &Vec<char>) -> (r: bool)
    ensures
        r == ends_with(s@, ".json"@),
{
    let n = s.len();
    let tail = ['.', 'j', 's', 'o', 'n'];
    proof {
        reveal_strlit(".json");
        assert(tail@ =~= ".json"@);
    }
    if n < 5 {
        return false;
    }
    let mut i: usize = 0;
    while i < 5
        invariant
            n == s@.len(),
            n >= 5,
            i <= 5,
            tail@ == ".json"@,
            forall|k: int| 0 <= k < i ==> s@[n - 5 + k] == tail@[k],
        decreases 5 - i,
    {
        if s[n - 5 + i] != tail[i] {
            proof {
                assert(s@.skip(n - 5)[i as int] != ".json"@[i as int]);
            }
            return false;
        }
        i = i + 1;
    }
    proof {
        assert(s@.skip(n - 5) =~= ".json"@);
    }
    true
}

/// The name a file is saved under, from the answer to the name prompt
/// (surrounding whitespace ignored) and the time stamp of the save.
pub fn saved_file_name(prefix: &str, title: &str, entered: &str, stamp: &str) -> (r: String)
    ensures
        r@ == saved_name(prefix@, title@, trimmed(entered@), stamp@),
{
    let cs = chars_of(entered);
    let t = trim_chars(cs.as_slice());
    if t.len() == 0 {
        let mut r = owned(prefix);
        append_str(&mut r, safe_title_of(title).as_str());
        append_str(&mut r, "-");
        append_str(&mut r, stamp);
        append_str(&mut r, ".json");
        r
    } else {
        let name = string_from_chars(t.as_slice());
        if ends_with_json(&t) {
            name
        } else {
            let mut r = name;
            append_str(&mut r, ".json");
            r
        }
    }
}

/// The current time as a file-name stamp: `chrono::Utc::now()` formatted
/// with `format`, which is "%Y%m%d_%H%M%S". Which time it reads is not
/// stated (it depends on the clock); what is stated is the shape that
/// chrono's formatting gives every time: the year takes at least four
/// characters, and month, day, hour, minute and second two digits each, so
/// the stamp has at least 15 characters.
#[verifier::external_body]
pub(crate) fn file_stamp(format: &str) -> (r: String)
    requires
        format@ == "%Y%m%d_%H%M%S"@,
    ensures
        r@.len() >= 15,
{
    chrono::Utc::now().format(format).to_string()
}

/// The name a file is saved under now: `saved_name` with the stamp of the
/// current time, which has at least 15 characters.
pub fn name_for_save(prefix: &str, title: &str, entered: &str) -> (r: String)
    ensures
        exists|stamp: Seq<char>|
            stamp.len() >= 15 && r@ == #[trigger] saved_name(prefix@, title@, trimmed(entered@), stamp),
{
    let stamp = file_stamp("%Y%m%d_%H%M%S");
    let r = saved_file_name(prefix, title, entered, stamp.as_str());
    assert(stamp@.len() >= 15 && r@ == saved_name(prefix@, title@, trimmed(entered@), stamp@));
    r
}

/// Whatever is entered at the name prompt, a file is saved under a name
/// that ends in ".json".
pub proof fn law_saved_names_end_in_json(prefix: Seq<char>, title: Seq<char>, entered: Seq<char>, stamp: Seq<char>)
    ensures
        ends_with(saved_name(prefix, title, entered, stamp), ".json"@),
{
    reveal_strlit(".json");
    let r = saved_name(prefix, title, entered, stamp);
    if entered.len() == 0 {
        let head = prefix + safe_title(title) + "-"@ + stamp;
        assert(r == head + ".json"@);
        assert(r.skip(r.len() - 5) =~= ".json"@);
    } else if !ends_with(entered, ".json"@) {
        assert(r == entered + ".json"@);
        assert(r.skip(r.len() - 5) =~= ".json"@);
    }
}

} // verus!
