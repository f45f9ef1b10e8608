use vstd::prelude::*;

verus! {

/// Whether `c` is a control character: a code point in `U+0000..=U+001F`
/// or `U+007F..=U+009F`.
pub open spec fn is_control(c: char) -> bool {
    c as u32 <= 0x1f || (0x7f <= c as u32 && c as u32 <= 0x9f)
}

/// The three whitespace controls that carry meaning inside a message body:
/// line feed, carriage return and horizontal tab.
pub open spec fn is_line_control(c: char) -> bool {
    c == '\n' || c == '\r' || c == '\t'
}

/// Characters that the first pass keeps.
pub open spec fn survives(c: char) -> bool {
    !is_control(c) || is_line_control(c)
}

/// The first pass: every control character other than line feed, carriage
/// return and tab is dropped; all other characters stay, in order.
pub open spec fn strip_controls(s: Seq<char>) -> Seq<char> {
    s.filter(|c: char| survives(c))
}

/// Length of the run of consecutive backslashes that ends right before
/// position `i` of `s`.
pub open spec fn backslash_run(s: Seq<char>, i: int) -> nat
    decreases i,
{
    if 0 < i <= s.len() && s[i - 1] == '\\' {
        1 + backslash_run(s, i - 1)
    } else {
        0
    }
}

/// Escape parity: the character at position `i` is already escaped when an
/// odd number of consecutive backslashes precedes it.
pub open spec fn is_escaped(s: Seq<char>, i: int) -> bool {
    backslash_run(s, i) % 2 == 1
}

/// The letter that follows the backslash in the JSON escape of `c`.
pub open spec fn escape_letter(c: char) -> char {
    if c == '\n' {
        'n'
    } else if c == '\r' {
        'r'
    } else {
        't'
    }
}

/// What the second pass emits for position `i` of `s`: the two-character JSON
/// escape for a raw line feed, carriage return or tab, the character itself
/// otherwise.
pub open spec fn escape_at(s: Seq<char>, i: int) -> Seq<char> {
    if is_line_control(s[i]) && !is_escaped(s, i) {
        seq!['\\', escape_letter(s[i])]
    } else {
        seq![s[i]]
    }
}

/// What the second pass emits for the first `n` characters of `s`.
pub open spec fn escape_prefix(s: Seq<char>, n: int) -> Seq<char>
    decreases n,
{
    if n <= 0 {
        Seq::empty()
    } else {
        escape_prefix(s, n - 1) + escape_at(s, n - 1)
    }
}

/// The second pass over the whole of `s`.
pub open spec fn escape_raw(s: Seq<char>) -> Seq<char> {
    escape_prefix(s, s.len() as int)
}

/// The repaired text: controls stripped, then raw line controls escaped.
pub open spec fn sanitize(s: Seq<char>) -> Seq<char> {
    escape_raw(strip_controls(s))
}

/// Executable test for [`is_control`].
pub fn char_is_control(c: char) -> (r: bool)
    ensures
        r == is_control(c),
{
    let n: u32 = c as u32;
    n <= 0x1f || (0x7f <= n && n <= 0x9f)
}

/// Text that needs no repair: it holds no control character but line feed,
/// carriage return and tab, and each of those is already escaped.
pub open spec fn is_clean(s: Seq<char>) -> bool {
    forall|i: int|
        0 <= i < s.len() ==> survives(#[trigger] s[i]) && (is_line_control(s[i]) ==> is_escaped(
            s,
            i,
        ))
}

/// The first pass leaves text alone that holds nothing to drop.
proof fn lemma_strip_keeps_survivors(s: Seq<char>)
    requires
        forall|i: int| 0 <= i < s.len() ==> survives(#[trigger] s[i]),
    ensures
        strip_controls(s) == s,
    decreases s.len(),
{
    reveal(Seq::filter);
    if s.len() > 0 {
        lemma_strip_keeps_survivors(s.drop_last());
        assert(s.drop_last().push(s.last()) =~= s);
    }
}

/// Every character that the first pass leaves is one that it keeps.
proof fn lemma_strip_survives(s: Seq<char>)
    ensures
        forall|i: int| 0 <= i < strip_controls(s).len() ==> survives(#[trigger] strip_controls(s)[i]),
{
    let pred = |c: char| survives(c);
    assert forall|i: int| 0 <= i < strip_controls(s).len() implies survives(
        #[trigger] strip_controls(s)[i],
    ) by {
        s.lemma_filter_pred(pred, i);
    }
}

/// The run of backslashes before a position depends only on the text before
/// that position.
proof fn lemma_backslash_run_prefix(a: Seq<char>, b: Seq<char>, i: int)
    requires
        0 <= i <= a.len(),
    ensures
        backslash_run(a + b, i) == backslash_run(a, i),
    decreases i,
{
    if i > 0 {
        lemma_backslash_run_prefix(a, b, i - 1);
    }
}

/// Where every line control among the first `n` characters is escaped, the
/// second pass emits those characters as they are.
proof fn lemma_escape_keeps_escaped(s: Seq<char>, n: int)
    requires
        0 <= n <= s.len(),
        forall|i: int| 0 <= i < n && is_line_control(#[trigger] s[i]) ==> is_escaped(s, i),
    ensures
        escape_prefix(s, n) == s.take(n),
    decreases n,
{
    if n > 0 {
        lemma_escape_keeps_escaped(s, n - 1);
        assert(s.take(n) =~= s.take(n - 1) + seq![s[n - 1]]);
    } else {
        assert(s.take(n) =~= Seq::<char>::empty());
    }
}

/// Clean text is a fixed point of the repair.
proof fn lemma_clean_is_fixed(s: Seq<char>)
    requires
        is_clean(s),
    ensures
        sanitize(s) == s,
{
    lemma_strip_keeps_survivors(s);
    lemma_escape_keeps_escaped(s, s.len() as int);
    assert(s.take(s.len() as int) =~= s);
}

/// The first `n` characters of `s`, once escaped, are clean, and end in a
/// run of backslashes as long as the one that ends the first `n` characters
/// of `s`.
proof fn lemma_escape_prefix_clean(s: Seq<char>, n: int)
    requires
        0 <= n <= s.len(),
        forall|i: int| 0 <= i < s.len() ==> survives(#[trigger] s[i]),
    ensures
        is_clean(escape_prefix(s, n)),
        backslash_run(escape_prefix(s, n), escape_prefix(s, n).len() as int) == backslash_run(s, n),
    decreases n,
{
    if n > 0 {
        lemma_escape_prefix_clean(s, n - 1);
        let head = escape_prefix(s, n - 1);
        let tail = escape_at(s, n - 1);
        let whole = escape_prefix(s, n);
        let c = s[n - 1];
        assert(survives(c));
        assert forall|j: int| 0 <= j < whole.len() implies survives(#[trigger] whole[j]) && (
        is_line_control(whole[j]) ==> is_escaped(whole, j)) by {
            if j < head.len() {
                lemma_backslash_run_prefix(head, tail, j);
                assert(whole[j] == head[j]);
            } else {
                lemma_backslash_run_prefix(head, tail, head.len() as int);
            }
        }
        lemma_backslash_run_prefix(head, tail, head.len() as int);
        assert(whole.last() == tail.last());
    }
}

/// Whatever the input, the repaired text is clean.
pub proof fn lemma_sanitize_is_clean(s: Seq<char>)
    ensures
        is_clean(sanitize(s)),
{
    lemma_strip_survives(s);
    lemma_escape_prefix_clean(strip_controls(s), strip_controls(s).len() as int);
}

/// The fixed points of the repair are exactly the clean texts.
pub proof fn lemma_sanitize_fixed_points(s: Seq<char>)
    ensures
        sanitize(s) == s <==> is_clean(s),
{
    if is_clean(s) {
        lemma_clean_is_fixed(s);
    }
    if sanitize(s) == s {
        lemma_sanitize_is_clean(s);
    }
}

/// Repairing twice gives the same text as repairing once.
pub proof fn lemma_sanitize_idempotent(s: Seq<char>)
    ensures
        sanitize(sanitize(s)) == sanitize(s),
{
    lemma_sanitize_is_clean(s);
    lemma_clean_is_fixed(sanitize(s));
}

/// Text without any control character comes back unchanged, whether or not
/// it holds backslashes.
pub proof fn lemma_sanitize_identity(s: Seq<char>)
    requires
        forall|i: int| 0 <= i < s.len() ==> !is_control(#[trigger] s[i]),
    ensures
        sanitize(s) == s,
{
    lemma_clean_is_fixed(s);
}

/// The first pass, one character at a time.
proof fn lemma_strip_push(s: Seq<char>, c: char)
    ensures
        strip_controls(s.push(c)) == if survives(c) {
            strip_controls(s).push(c)
        } else {
            strip_controls(s)
        },
{
    reveal(Seq::filter);
    assert(s.push(c).drop_last() =~= s);
}

/// Repairs a JSON body that may hold raw control characters.
///
/// Control characters other than line feed, carriage return and tab are
/// removed. Of those three, each one that is not already preceded by an odd
/// number of backslashes is replaced by its two-character JSON escape.
pub fn sanitize_json(data: &str) -> (result: String)
    ensures
        result@ == sanitize(data@),
{
    let mut kept = String::new();
    for ch in it: data.chars()
        invariant
            it.seq() == data@,
            kept@ == strip_controls(data@.take(it.index())),
    {
        proof {
            lemma_strip_push(data@.take(it.index()), ch);
            assert(data@.take(it.index() + 1) =~= data@.take(it.index()).push(ch));
        }
        if !char_is_control(ch) || ch == '\n' || ch == '\r' || ch == '\t' {
            kept.push(ch);
        }
    }
    assert(data@.take(data@.len() as int) =~= data@);

    let mut result = String::new();
    let mut prev_backslash = false;
    for ch in it: kept.chars()
        invariant
            it.seq() == kept@,
            result@ == escape_prefix(kept@, it.index()),
            prev_backslash == is_escaped(kept@, it.index()),
    {
        if ch == '\\' {
            prev_backslash = !prev_backslash;
            result.push(ch);
        } else if !prev_backslash {
            if ch == '\n' {
                result.push('\\');
                result.push('n');
            } else if ch == '\r' {
                result.push('\\');
                result.push('r');
            } else if ch == '\t' {
                result.push('\\');
                result.push('t');
            } else {
                result.push(ch);
            }
        } else {
            result.push(ch);
            prev_backslash = false;
        }
    }
    result
}

} // verus!
