//! Identifiers of story nodes, questions and requests: fresh random ones,
//! and their text.
use vstd::prelude::*;
use crate::digest::{hex_digit, hex_digit_of};
use crate::text::push_char;

verus! {

/// A fresh random identifier (`uuid::Uuid::new_v4`, as a `u128`). Nothing is
/// stated of the value: it is random.
#[verifier::external_body]
pub(crate) fn fresh_id() -> u128 {
    uuid::Uuid::new_v4().as_u128()
}

/// The last `n` hexadecimal digits of `v`, most significant first.
pub open spec fn hex_digits(v: nat, n: nat) -> Seq<char>
    decreases n,
{
    if n == 0 {
        Seq::empty()
    } else {
        hex_digits(v / 16, (n - 1) as nat).push(hex_digit((v % 16) as int))
    }
}

/// The text of an identifier: its 32 lower-case hexadecimal digits, most
/// significant first, grouped 8-4-4-4-12 with hyphens.
pub open spec fn id_text(id: u128) -> Seq<char> {
    let h = hex_digits(id as nat, 32);
    h.subrange(0, 8) + "-"@ + h.subrange(8, 12) + "-"@ + h.subrange(12, 16) + "-"@ + h.subrange(16, 20) + "-"@
        + h.subrange(20, 32)
}

/// `hex_digits(v, n)` has `n` digits.
pub proof fn lemma_hex_digits_len(v: nat, n: nat)
    ensures
        hex_digits(v, n).len() == n,
    decreases n,
{
    if n > 0 {
        lemma_hex_digits_len(v / 16, (n - 1) as nat);
    }
}

/// The text of an identifier has 36 characters.
pub proof fn lemma_id_text_len(id: u128)
    ensures
        id_text(id).len() == 36,
{
    lemma_hex_digits_len(id as nat, 32);
    reveal_strlit("-");
}

/// Appends `cs[from..to]` to `out`.
fn push_range(out: &mut String, cs: &Vec<char>, from: usize, to: usize)
    requires
        from <= to <= cs@.len(),
    ensures
        final(out)@ == old(out)@ + cs@.subrange(from as int, to as int),
{
    let ghost start = out@;
    let mut k = from;
    while k < to
        invariant
            from <= k <= to <= cs@.len(),
            out@ == start + cs@.subrange(from as int, k as int),
        decreases to - k,
    {
        push_char(out, cs[k]);
        proof {
            assert(cs@.subrange(from as int, k + 1) =~= cs@.subrange(from as int, k as int).push(cs@[k as int]));
        }
        k = k + 1;
    }
}

/// The 32 hexadecimal digits of an identifier, most significant first.
fn id_digits(id: u128) -> (d: Vec<char>)
    ensures
        d@ == hex_digits(id as nat, 32),
{
    let mut d: Vec<char> = vec!['0'; 32];
    let mut rest: u128 = id;
    let mut i: usize = 0;
    let ghost mut suffix: Seq<char> = Seq::empty();
    while i < 32
        invariant
            i <= 32,
            d@.len() == 32,
            d@.subrange(32 - i, 32) == suffix,
            hex_digits(id as nat, 32) == hex_digits(rest as nat, (32 - i) as nat) + suffix,
        decreases 32 - i,
    {
        let low: u8 = (rest % 16) as u8;
        let c = hex_digit_of(low);
        let ghost old_d = d@;
        d.set(31 - i, c);
        proof {
            assert(hex_digits(rest as nat, (32 - i) as nat) == hex_digits((rest / 16) as nat, (31 - i) as nat).push(hex_digit((rest % 16) as int)));
            assert(hex_digits((rest / 16) as nat, (31 - i) as nat).push(c) + suffix =~= hex_digits((rest / 16) as nat, (31 - i) as nat) + seq![c].add(suffix));
            assert(d@.subrange(31 - i, 32) =~= seq![c].add(old_d.subrange(32 - i, 32)));
            suffix = seq![c].add(suffix);
        }
        rest = rest / 16;
        i = i + 1;
    }
    proof {
        assert(hex_digits(rest as nat, 0) == Seq::<char>::empty());
        assert(hex_digits(id as nat, 32) =~= suffix);
        assert(d@.subrange(0, 32) =~= d@);
    }
    d
}

/// The text of an identifier, `id_text(id)`: the form that
/// `uuid::Uuid::to_string` gives.
pub(crate) fn write_id(id: u128) -> (r: String)
    ensures
        r@ == id_text(id),
{
    let d = id_digits(id);
    proof {
        lemma_hex_digits_len(id as nat, 32);
        reveal_strlit("-");
    }
    let mut r = String::new();
    push_range(&mut r, &d, 0, 8);
    push_char(&mut r, '-');
    push_range(&mut r, &d, 8, 12);
    push_char(&mut r, '-');
    push_range(&mut r, &d, 12, 16);
    push_char(&mut r, '-');
    push_range(&mut r, &d, 16, 20);
    push_char(&mut r, '-');
    push_range(&mut r, &d, 20, 32);
    proof {
        let h = d@;
        assert(r@ =~= h.subrange(0, 8) + "-"@ + h.subrange(8, 12) + "-"@ + h.subrange(12, 16) + "-"@
            + h.subrange(16, 20) + "-"@ + h.subrange(20, 32));
    }
    r
}

} // verus!
