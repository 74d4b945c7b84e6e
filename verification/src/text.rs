//! Text rules shared by names and parameter keys: Unicode white space,
//! trimming, blankness, and the code-point order parameter keys sort by.

use vstd::prelude::*;

verus! {

/// The Unicode `White_Space` property, as `char::is_whitespace` tests it.
pub open spec fn is_white_space(c: char) -> bool {
    let v = c as u32;
    ||| 0x09 <= v <= 0x0D
    ||| v == 0x20
    ||| v == 0x85
    ||| v == 0xA0
    ||| v == 0x1680
    ||| 0x2000 <= v <= 0x200A
    ||| v == 0x2028
    ||| v == 0x2029
    ||| v == 0x202F
    ||| v == 0x205F
    ||| v == 0x3000
}

/// Whether `c` is white space (`char::is_whitespace`).
pub fn char_is_white_space(c: char) -> (ws: bool)
    ensures
        ws == is_white_space(c),
{
    let v = c as u32;
    (0x09 <= v && v <= 0x0D) || v == 0x20 || v == 0x85 || v == 0xA0 || v == 0x1680 || (0x2000 <= v
        && v <= 0x200A) || v == 0x2028 || v == 0x2029 || v == 0x202F || v == 0x205F || v == 0x3000
}

/// Index of the first non-white-space character at or after `from`
/// (`s.len()` when there is none).
pub open spec fn first_kept(s: Seq<char>, from: int) -> int
    decreases s.len() - from,
{
    if from >= s.len() {
        s.len() as int
    } else if is_white_space(s[from]) {
        first_kept(s, from + 1)
    } else {
        from
    }
}

/// One past the last non-white-space character before `to` (`0` when there
/// is none).
pub open spec fn last_kept(s: Seq<char>, to: int) -> int
    decreases to,
{
    if to <= 0 {
        0
    } else if is_white_space(s[to - 1]) {
        last_kept(s, to - 1)
    } else {
        to
    }
}

/// `s` without leading and trailing white space (`str::trim`).
pub open spec fn spec_trim(s: Seq<char>) -> Seq<char> {
    let start = first_kept(s, 0);
    if start >= s.len() {
        Seq::empty()
    } else {
        s.subrange(start, last_kept(s, s.len() as int))
    }
}

/// Whether `s` is empty or white space only (`s.trim().is_empty()`).
pub open spec fn is_blank(s: Seq<char>) -> bool {
    forall|i: int| 0 <= i < s.len() ==> is_white_space(#[trigger] s[i])
}

proof fn lemma_first_kept(s: Seq<char>, from: int)
    requires
        0 <= from <= s.len(),
    ensures
        from <= first_kept(s, from) <= s.len(),
        forall|i: int| from <= i < first_kept(s, from) ==> is_white_space(#[trigger] s[i]),
        first_kept(s, from) < s.len() ==> !is_white_space(s[first_kept(s, from)]),
    decreases s.len() - from,
{
    if from < s.len() && is_white_space(s[from]) {
        lemma_first_kept(s, from + 1);
    }
}

proof fn lemma_last_kept(s: Seq<char>, to: int)
    requires
        0 <= to <= s.len(),
    ensures
        0 <= last_kept(s, to) <= to,
        forall|i: int| last_kept(s, to) <= i < to ==> is_white_space(#[trigger] s[i]),
        last_kept(s, to) > 0 ==> !is_white_space(s[last_kept(s, to) - 1]),
    decreases to,
{
    if to > 0 && is_white_space(s[to - 1]) {
        lemma_last_kept(s, to - 1);
    }
}

/// Trimming leaves nothing exactly when the text is blank; otherwise the
/// trimmed text starts and ends with non-white-space characters.
pub proof fn lemma_trim_blank(s: Seq<char>)
    ensures
        (spec_trim(s).len() == 0) == is_blank(s),
        spec_trim(s).len() > 0 ==> !is_white_space(spec_trim(s)[0]) && !is_white_space(
            spec_trim(s).last(),
        ),
{
    lemma_first_kept(s, 0);
    lemma_last_kept(s, s.len() as int);
    let start = first_kept(s, 0);
    if start < s.len() {
        // The first kept character is not white space, so the last kept
        // position lies beyond it.
        assert(last_kept(s, s.len() as int) > start) by {
            if last_kept(s, s.len() as int) <= start {
                assert(is_white_space(s[start]));
            }
        }
        assert(!is_blank(s)) by {
            assert(!is_white_space(s[start]));
        }
    }
}

/// Index of the first non-white-space character at or after `from`.
fn first_kept_exec(s: &str, from: usize) -> (index: usize)
    requires
        from <= s@.len(),
    ensures
        index == first_kept(s@, from as int),
    decreases s@.len() - from,
{
    let len = s.unicode_len();
    let mut i = from;
    while i < len && char_is_white_space(s.get_char(i))
        invariant
            len == s@.len(),
            from <= i <= len,
            first_kept(s@, i as int) == first_kept(s@, from as int),
        decreases len - i,
    {
        i = i + 1;
    }
    i
}

/// Whether the text is empty or white space only.
pub fn str_is_blank(s: &str) -> (blank: bool)
    ensures
        blank == is_blank(s@),
{
    let start = first_kept_exec(s, 0);
    proof {
        lemma_first_kept(s@, 0);
        lemma_trim_blank(s@);
    }
    start == s.unicode_len()
}

/// The text without leading and trailing white space (`str::trim`).
pub fn trimmed(s: &str) -> (out: String)
    ensures
        out@ == spec_trim(s@),
{
    let len = s.unicode_len();
    let start = first_kept_exec(s, 0);
    if start >= len {
        return String::new();
    }
    let mut end = len;
    while end > 0 && char_is_white_space(s.get_char(end - 1))
        invariant
            len == s@.len(),
            0 <= end <= len,
            last_kept(s@, end as int) == last_kept(s@, len as int),
        decreases end,
    {
        end = end - 1;
    }
    proof {
        lemma_first_kept(s@, 0);
        lemma_last_kept(s@, len as int);
        assert(last_kept(s@, len as int) > start) by {
            if last_kept(s@, len as int) <= start {
                assert(is_white_space(s@[start as int]));
            }
        }
    }
    String::from_str(s.substring_char(start, end))
}

/// Whether two texts are equal character for character.
pub fn str_eq(a: &str, b: &str) -> (equal: bool)
    ensures
        equal == (a@ == b@),
{
    let la = a.unicode_len();
    let lb = b.unicode_len();
    if la != lb {
        return false;
    }
    let mut i: usize = 0;
    while i < la
        invariant
            la == a@.len(),
            lb == b@.len(),
            la == lb,
            i <= la,
            forall|k: int| 0 <= k < i ==> a@[k] == b@[k],
        decreases la - i,
    {
        if a.get_char(i) != b.get_char(i) {
            return false;
        }
        i = i + 1;
    }
    assert(a@ =~= b@);
    true
}

/// Code-point lexicographic order on texts: the order `String`'s `Ord`
/// gives (UTF-8 byte order and code-point order agree).
pub open spec fn text_less(a: Seq<char>, b: Seq<char>) -> bool
    decreases a.len(),
{
    if a.len() == 0 {
        b.len() > 0
    } else if b.len() == 0 {
        false
    } else if a[0] != b[0] {
        (a[0] as u32) < (b[0] as u32)
    } else {
        text_less(a.drop_first(), b.drop_first())
    }
}

/// The text order is irreflexive.
pub proof fn lemma_text_less_irreflexive(a: Seq<char>)
    ensures
        !text_less(a, a),
    decreases a.len(),
{
    if a.len() > 0 {
        lemma_text_less_irreflexive(a.drop_first());
    }
}

/// The text order is transitive.
pub proof fn lemma_text_less_transitive(a: Seq<char>, b: Seq<char>, c: Seq<char>)
    requires
        text_less(a, b),
        text_less(b, c),
    ensures
        text_less(a, c),
    decreases a.len(),
{
    if a.len() > 0 && b.len() > 0 && c.len() > 0 {
        if a[0] == b[0] && b[0] == c[0] {
            lemma_text_less_transitive(a.drop_first(), b.drop_first(), c.drop_first());
        }
    }
}

/// Any two distinct texts are ordered one way or the other.
pub proof fn lemma_text_less_total(a: Seq<char>, b: Seq<char>)
    ensures
        a == b || text_less(a, b) || text_less(b, a),
    decreases a.len(),
{
    if a.len() > 0 && b.len() > 0 {
        if a[0] == b[0] {
            lemma_text_less_total(a.drop_first(), b.drop_first());
            if a.drop_first() == b.drop_first() {
                assert(a =~= seq![a[0]] + a.drop_first());
                assert(b =~= seq![b[0]] + b.drop_first());
            }
        } else {
            vstd::utf8::char_u32_cast(a[0], a[0] as u32);
            vstd::utf8::char_u32_cast(b[0], b[0] as u32);
        }
    } else if a.len() == 0 && b.len() == 0 {
        assert(a =~= b);
    }
}

/// Compare two texts in code-point lexicographic order.
pub fn text_precedes(a: &str, b: &str) -> (less: bool)
    ensures
        less == text_less(a@, b@),
{
    let la = a.unicode_len();
    let lb = b.unicode_len();
    let mut i: usize = 0;
    assert(a@.subrange(0, la as int) =~= a@);
    assert(b@.subrange(0, lb as int) =~= b@);
    while i < la && i < lb
        invariant
            la == a@.len(),
            lb == b@.len(),
            i <= la,
            i <= lb,
            text_less(a@, b@) == text_less(a@.subrange(i as int, la as int), b@.subrange(i as int, lb as int)),
        decreases la - i,
    {
        let ca = a.get_char(i);
        let cb = b.get_char(i);
        if ca != cb {
            proof {
                let sa = a@.subrange(i as int, la as int);
                let sb = b@.subrange(i as int, lb as int);
                assert(sa[0] == ca && sb[0] == cb);
            }
            return (ca as u32) < (cb as u32);
        }
        proof {
            let sa = a@.subrange(i as int, la as int);
            let sb = b@.subrange(i as int, lb as int);
            assert(sa.drop_first() =~= a@.subrange(i + 1, la as int));
            assert(sb.drop_first() =~= b@.subrange(i + 1, lb as int));
        }
        i = i + 1;
    }
    i == la && i < lb
}


/// The decimal digit character for `d` (`0..=9`).
pub open spec fn digit_char(d: int) -> char {
    if d == 0 {
        '0'
    } else if d == 1 {
        '1'
    } else if d == 2 {
        '2'
    } else if d == 3 {
        '3'
    } else if d == 4 {
        '4'
    } else if d == 5 {
        '5'
    } else if d == 6 {
        '6'
    } else if d == 7 {
        '7'
    } else if d == 8 {
        '8'
    } else {
        '9'
    }
}

/// Decimal notation of `n`, without leading zeros (`u64`'s `Display`).
pub open spec fn decimal(n: nat) -> Seq<char>
    decreases n,
{
    if n < 10 {
        seq![digit_char(n as int)]
    } else {
        decimal(n / 10).push(digit_char((n % 10) as int))
    }
}

/// The one-character text of digit `d`.
fn digit_str(d: u64) -> (text: &'static str)
    requires
        d < 10,
    ensures
        text@ == seq![digit_char(d as int)],
{
    proof {
        reveal_strlit("0");
        reveal_strlit("1");
        reveal_strlit("2");
        reveal_strlit("3");
        reveal_strlit("4");
        reveal_strlit("5");
        reveal_strlit("6");
        reveal_strlit("7");
        reveal_strlit("8");
        reveal_strlit("9");
    }
    let text = if d == 0 {
        "0"
    } else if d == 1 {
        "1"
    } else if d == 2 {
        "2"
    } else if d == 3 {
        "3"
    } else if d == 4 {
        "4"
    } else if d == 5 {
        "5"
    } else if d == 6 {
        "6"
    } else if d == 7 {
        "7"
    } else if d == 8 {
        "8"
    } else {
        "9"
    };
    assert(text@ =~= seq![digit_char(d as int)]);
    text
}

/// Append the decimal notation of `n`.
pub fn push_decimal(out: &mut String, n: u64)
    ensures
        final(out)@ == old(out)@ + decimal(n as nat),
    decreases n,
{
    if n >= 10 {
        push_decimal(out, n / 10);
    }
    out.append(digit_str(n % 10));
    proof {
        if n >= 10 {
            assert(decimal(n as nat) == decimal((n / 10) as nat).push(digit_char((n % 10) as int)));
        }
        assert(out@ =~= old(out)@ + decimal(n as nat));
    }
}

} // verus!
