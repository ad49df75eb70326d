use std::collections::HashMap;

use vstd::prelude::*;
use vstd::string::StringExecFns;

use crate::scripting::{action_of_name, is_known_action_name, same_text, Action};

verus! {

/// Top-level pet configuration (`assets/config/pet_config.json`).
pub struct PetConfig {
    /// The pet's id; also the sprite sub-directory (`sprites/<pet_id>/`).
    pub pet_id: String,
    pub actions: HashMap<String, ActionConfig>,
    /// Effect animations, keyed by effect name (`sprites/effects/<name>/`).
    pub effects: HashMap<String, ActionConfig>,
}

/// Frame settings of one action or effect.
pub struct ActionConfig {
    pub frame_count: usize,
    pub frame_duration_ms: u64,
    pub looped: bool,
}

/// The action a key of the `actions` table configures: the action it names,
/// or `None` for a key outside the whitelist (such an entry is skipped).
pub fn configured_action(key: &str) -> (r: Option<Action>)
    ensures
        r == (if is_known_action_name(key@) {
            Some(action_of_name(key@))
        } else {
            None
        }),
{
    let action = Action::from_str_or_fallback(key);
    let owned = key.to_owned();
    if !same_text(&owned, "idle") && action == Action::Idle {
        None
    } else {
        Some(action)
    }
}

/// The character of decimal digit `d`.
pub open spec fn digit_char(d: nat) -> char {
    if d == 0 {
        '0'
    } else if d == 1 {
        '1'
    } else if d == 2 {
        '2'
    } else if d == 3 {
        '3'
    } else if d == 4 {
        '4'
    } else if d == 5 {
        '5'
    } else if d == 6 {
        '6'
    } else if d == 7 {
        '7'
    } else if d == 8 {
        '8'
    } else {
        '9'
    }
}

/// The decimal digits of `n`, most significant first, without leading zeros.
pub open spec fn decimal(n: nat) -> Seq<char>
    decreases n,
{
    if n < 10 {
        seq![digit_char(n)]
    } else {
        decimal(n / 10).push(digit_char(n % 10))
    }
}

/// The value of a decimal digit character.
pub open spec fn digit_value(c: char) -> int {
    c as int - '0' as int
}

/// The number a string of decimal digits denotes, most significant first.
pub open spec fn decimal_value(s: Seq<char>) -> int
    decreases s.len(),
{
    if s.len() == 0 {
        0
    } else {
        decimal_value(s.drop_last()) * 10 + digit_value(s.last())
    }
}

/// `decimal(n)` is the decimal numeral of `n`: it is made of digits, reads
/// back as `n`, and has no leading zero unless `n` is 0.
pub proof fn lemma_decimal_reads_back(n: nat)
    ensures
        forall|i: int| 0 <= i < decimal(n).len() ==> '0' <= #[trigger] decimal(n)[i] <= '9',
        decimal_value(decimal(n)) == n,
        decimal(n).len() > 0,
        n > 0 ==> decimal(n)[0] != '0',
    decreases n,
{
    lemma_digit_value((n % 10) as nat);
    if n >= 10 {
        lemma_decimal_reads_back(n / 10);
        let d = decimal(n / 10);
        assert(decimal(n).drop_last() =~= d);
        assert(decimal(n)[0] == d[0]);
        assert(decimal(n).last() == digit_char((n % 10) as nat));
        assert(decimal_value(decimal(n)) == decimal_value(d) * 10 + digit_value(
            digit_char((n % 10) as nat),
        ));
        assert(n == (n / 10) * 10 + n % 10);
    } else {
        assert(decimal(n).drop_last() =~= Seq::<char>::empty());
        assert(decimal(n).last() == digit_char(n));
        assert(decimal_value(decimal(n)) == decimal_value(Seq::<char>::empty()) * 10 + digit_value(
            digit_char(n),
        ));
    }
}

proof fn lemma_digit_value(d: nat)
    requires
        d < 10,
    ensures
        digit_value(digit_char(d)) == d,
        '0' <= digit_char(d) <= '9',
{
}

/// A frame file name is at least three digits, reading back as the frame
/// number, followed by `.png`.
pub proof fn lemma_frame_file_name_reads_back(index: nat)
    ensures
        ({
            let name = frame_file_name_of(index);
            let digits = (name.len() - 4) as int;
            &&& digits >= 3
            &&& name.subrange(digits, name.len() as int) == ".png"@
            &&& forall|i: int| 0 <= i < digits ==> '0' <= #[trigger] name[i] <= '9'
            &&& decimal_value(name.subrange(0, digits)) == index
        }),
{
    reveal_strlit(".png");
    lemma_decimal_reads_back(index);
    let d = decimal(index);
    let p = zero_padded(d, 3);
    let name = frame_file_name_of(index);
    assert(name.subrange(0, p.len() as int) =~= p);
    assert(name.subrange(p.len() as int, name.len() as int) =~= ".png"@);
    lemma_zero_padding_keeps_value(d, 3);
}

proof fn lemma_leading_zeros_keep_value(k: nat, d: Seq<char>)
    ensures
        decimal_value(Seq::new(k, |i: int| '0') + d) == decimal_value(d),
    decreases d.len(),
{
    let z = Seq::new(k, |i: int| '0');
    if d.len() == 0 {
        assert(z + d =~= z);
        lemma_zeros_value(k);
    } else {
        lemma_leading_zeros_keep_value(k, d.drop_last());
        assert((z + d).drop_last() =~= z + d.drop_last());
        assert((z + d).last() == d.last());
    }
}

proof fn lemma_zeros_value(k: nat)
    ensures
        decimal_value(Seq::new(k, |i: int| '0')) == 0,
    decreases k,
{
    if k > 0 {
        lemma_zeros_value((k - 1) as nat);
        assert(Seq::new(k, |i: int| '0').drop_last() =~= Seq::new((k - 1) as nat, |i: int| '0'));
    }
}

proof fn lemma_zero_padding_keeps_value(d: Seq<char>, width: nat)
    requires
        forall|i: int| 0 <= i < d.len() ==> '0' <= #[trigger] d[i] <= '9',
    ensures
        decimal_value(zero_padded(d, width)) == decimal_value(d),
        zero_padded(d, width).len() >= width,
        forall|i: int| 0 <= i < zero_padded(d, width).len() ==> '0' <= #[trigger] zero_padded(d, width)[i] <= '9',
{
    if d.len() < width {
        lemma_leading_zeros_keep_value((width - d.len()) as nat, d);
    }
}

/// `s` with zeros in front, to at least `width` characters.
pub open spec fn zero_padded(s: Seq<char>, width: nat) -> Seq<char> {
    if s.len() < width {
        Seq::new((width - s.len()) as nat, |i: int| '0') + s
    } else {
        s
    }
}

/// The file name of sprite frame number `index`: the number in decimal,
/// zero-padded to three digits, then `.png` (`001.png`, `002.png`, ...).
pub open spec fn frame_file_name_of(index: nat) -> Seq<char> {
    zero_padded(decimal(index), 3) + ".png"@
}

fn digit_text(d: usize) -> (t: &'static str)
    requires
        d < 10,
    ensures
        t@ == seq![digit_char(d as nat)],
{
    proof {
        reveal_strlit("0");
        reveal_strlit("1");
        reveal_strlit("2");
        reveal_strlit("3");
        reveal_strlit("4");
        reveal_strlit("5");
        reveal_strlit("6");
        reveal_strlit("7");
        reveal_strlit("8");
        reveal_strlit("9");
    }
    if d == 0 {
        "0"
    } else if d == 1 {
        "1"
    } else if d == 2 {
        "2"
    } else if d == 3 {
        "3"
    } else if d == 4 {
        "4"
    } else if d == 5 {
        "5"
    } else if d == 6 {
        "6"
    } else if d == 7 {
        "7"
    } else if d == 8 {
        "8"
    } else {
        "9"
    }
}

fn append_decimal(out: &mut String, n: usize)
    ensures
        final(out)@ == old(out)@ + decimal(n as nat),
    decreases n,
{
    if n >= 10 {
        append_decimal(out, n / 10);
    }
    out.append(digit_text(n % 10));
    proof {
        if n >= 10 {
            assert(old(out)@ + decimal(n as nat) =~= old(out)@ + decimal((n / 10) as nat) + seq![
                digit_char((n % 10) as nat),
            ]);
        }
    }
}

fn decimal_len(n: usize) -> (len: usize)
    ensures
        len == decimal(n as nat).len(),
        len <= n + 1,
    decreases n,
{
    if n < 10 {
        1
    } else {
        let k = decimal_len(n / 10);
        k + 1
    }
}

/// The file name of sprite frame number `index` (see `frame_file_name_of`).
pub fn frame_file_name(index: usize) -> (name: String)
    ensures
        name@ == frame_file_name_of(index as nat),
{
    let len = decimal_len(index);
    let mut name = String::new();
    let mut k = len;
    while k < 3
        invariant
            len <= k,
            len == decimal(index as nat).len(),
            k <= 3 || k == len,
            name@ == Seq::new((k - len) as nat, |i: int| '0'),
        decreases 3 - k,
    {
        name.append(digit_text(0));
        assert(name@ =~= Seq::new((k + 1 - len) as nat, |i: int| '0'));
        k = k + 1;
    }
    append_decimal(&mut name, index);
    name.append(".png");
    assert(name@ =~= zero_padded(decimal(index as nat), 3) + ".png"@);
    name
}

} // verus!
