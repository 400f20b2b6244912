use vstd::prelude::*;

verus! {

/// `s` with every trailing occurrence of `c` removed.
pub open spec fn trim_end_char(s: Seq<char>, c: char) -> Seq<char>
    decreases s.len(),
{
    if s.len() > 0 && s.last() == c {
        trim_end_char(s.drop_last(), c)
    } else {
        s
    }
}

/// The part of `s` after the last occurrence of `c` (all of `s` when `c` does not occur).
pub open spec fn after_last(s: Seq<char>, c: char) -> Seq<char>
    decreases s.len(),
{
    if s.len() == 0 {
        s
    } else if s.last() == c {
        Seq::empty()
    } else {
        after_last(s.drop_last(), c).push(s.last())
    }
}

/// Calls `String::push`. Claimed: the text afterwards is the text before with
/// `c` added at its end, as the standard library documents.
#[verifier::external_body]
pub(crate) fn push_char(s: &mut String, c: char)
    ensures
        final(s)@ == old(s)@.push(c),
{
    s.push(c);
}

/// Copies a string slice into an owned string.
pub fn owned(s: &str) -> (res: String)
    ensures
        res@ == s@,
{
    String::from_str(s)
}

/// Whether two texts are equal, character by character.
pub fn same_text(a: &str, b: &str) -> (res: bool)
    ensures
        res == (a@ == b@),
{
    let la = a.unicode_len();
    let lb = b.unicode_len();
    if la != lb {
        return false;
    }
    let mut i: usize = 0;
    while i < la
        invariant
            i <= la,
            la == a@.len(),
            lb == b@.len(),
            la == lb,
            forall|k: int| 0 <= k < i ==> a@[k] == b@[k],
        decreases la - i,
    {
        if a.get_char(i) != b.get_char(i) {
            return false;
        }
        i = i + 1;
    }
    assert(a@ =~= b@);
    true
}

/// `s` without its trailing `'/'` characters, as `str::trim_end_matches('/')` gives it.
pub fn trim_trailing_slashes(s: &str) -> (res: String)
    ensures
        res@ == trim_end_char(s@, '/'),
{
    let len = s.unicode_len();
    let mut k = len;
    assert(s@.subrange(0, len as int) =~= s@);
    while k > 0 && s.get_char(k - 1) == '/'
        invariant
            k <= len,
            len == s@.len(),
            trim_end_char(s@, '/') == trim_end_char(s@.subrange(0, k as int), '/'),
        decreases k,
    {
        assert(s@.subrange(0, k as int).drop_last() =~= s@.subrange(0, k - 1));
        k = k - 1;
    }
    assert(s@.subrange(0, len as int) =~= s@);
    String::from_str(s.substring_char(0, k))
}

/// The part of `s` after its last `'/'`, as `s.rsplit('/').next().unwrap_or("")` gives it.
pub fn last_segment(s: &str) -> (res: String)
    ensures
        res@ == after_last(s@, '/'),
{
    let len = s.unicode_len();
    let mut k = len;
    assert(s@.subrange(0, len as int) =~= s@);
    assert(s@ + s@.subrange(len as int, len as int) =~= s@);
    while k > 0 && s.get_char(k - 1) != '/'
        invariant
            k <= len,
            len == s@.len(),
            after_last(s@, '/') == after_last(s@.subrange(0, k as int), '/') + s@.subrange(
                k as int,
                len as int,
            ),
        decreases k,
    {
        let ghost pre = s@.subrange(0, k as int);
        assert(pre.drop_last() =~= s@.subrange(0, k - 1));
        assert(s@.subrange(k - 1, len as int) =~= seq![pre.last()] + s@.subrange(k as int, len as int));
        assert(after_last(pre, '/') == after_last(pre.drop_last(), '/').push(pre.last()));
        assert(after_last(pre.drop_last(), '/').push(pre.last()) + s@.subrange(k as int, len as int)
            =~= after_last(pre.drop_last(), '/') + s@.subrange(k - 1, len as int));
        k = k - 1;
    }
    proof {
        let pre = s@.subrange(0, k as int);
        if k > 0 {
            assert(pre.last() == '/');
        }
        assert(after_last(pre, '/') =~= Seq::<char>::empty());
        assert(after_last(s@, '/') =~= s@.subrange(k as int, len as int));
    }
    String::from_str(s.substring_char(k, len))
}

/// The last segment holds no `'/'`, and a text without `'/'` is its own last segment.
pub proof fn lemma_after_last_has_no_separator(s: Seq<char>, c: char)
    ensures
        !after_last(s, c).contains(c),
        !s.contains(c) ==> after_last(s, c) == s,
    decreases s.len(),
{
    if s.len() > 0 {
        lemma_after_last_has_no_separator(s.drop_last(), c);
        if s.last() != c {
            let t = after_last(s.drop_last(), c);
            assert forall|i: int| 0 <= i < t.push(s.last()).len() implies t.push(s.last())[i] != c by {
                if i < t.len() {
                    assert(!t.contains(c));
                    if t[i] == c {
                        assert(t.contains(c));
                    }
                }
            }
            if !s.contains(c) {
                assert(!s.drop_last().contains(c)) by {
                    if s.drop_last().contains(c) {
                        let k = choose|k: int| 0 <= k < s.drop_last().len() && s.drop_last()[k] == c;
                        assert(s[k] == c);
                    }
                }
                assert(s.drop_last().push(s.last()) =~= s);
            }
        } else {
            assert(s.contains(c)) by {
                assert(s[s.len() - 1] == c);
            }
        }
    } else {
        assert(s =~= Seq::<char>::empty());
    }
}

/// The result of trimming is the same after a second trim.
pub proof fn lemma_trim_end_idempotent(s: Seq<char>, c: char)
    ensures
        trim_end_char(trim_end_char(s, c), c) == trim_end_char(s, c),
        trim_end_char(s, c).len() == 0 || trim_end_char(s, c).last() != c,
    decreases s.len(),
{
    if s.len() > 0 && s.last() == c {
        lemma_trim_end_idempotent(s.drop_last(), c);
    }
}


/// Lines of `s` as `str::lines` yields them: split at each `'\n'`, a `'\r'` right before
/// the `'\n'` dropped, and no empty line after a final `'\n'`.
pub open spec fn lines(s: Seq<char>) -> Seq<Seq<char>> {
    lines_from(s, Seq::empty())
}

/// Lines of `cur + s`, where `cur` is the part of the current line already read.
pub open spec fn lines_from(s: Seq<char>, cur: Seq<char>) -> Seq<Seq<char>>
    decreases s.len(),
{
    if s.len() == 0 {
        if cur.len() == 0 {
            Seq::empty()
        } else {
            seq![cur]
        }
    } else if s[0] == '\n' {
        seq![strip_cr(cur)] + lines_from(s.drop_first(), Seq::empty())
    } else {
        lines_from(s.drop_first(), cur.push(s[0]))
    }
}

/// `line` without one final `'\r'`.
pub open spec fn strip_cr(line: Seq<char>) -> Seq<char> {
    if line.len() > 0 && line.last() == '\r' {
        line.drop_last()
    } else {
        line
    }
}

/// The parts joined with `sep` between each two of them.
pub open spec fn join(parts: Seq<Seq<char>>, sep: Seq<char>) -> Seq<char>
    decreases parts.len(),
{
    if parts.len() == 0 {
        Seq::empty()
    } else if parts.len() == 1 {
        parts[0]
    } else {
        join(parts.drop_last(), sep) + sep + parts.last()
    }
}

/// The lines of `s`, as `s.lines()` yields them.
pub fn split_lines(s: &str) -> (res: Vec<String>)
    ensures
        res.deep_view() == lines(s@),
{
    let len = s.unicode_len();
    let mut out: Vec<String> = Vec::new();
    let mut cur = String::new();
    let mut i: usize = 0;
    assert(s@.skip(0) =~= s@);
    while i < len
        invariant
            i <= len,
            len == s@.len(),
            lines(s@) == out.deep_view() + lines_from(s@.skip(i as int), cur@),
        decreases len - i,
    {
        let c = s.get_char(i);
        let ghost rest = s@.skip(i as int);
        assert(rest.drop_first() =~= s@.skip(i + 1));
        if c == '\n' {
            let line = strip_cr_string(cur);
            out.push(line);
            cur = String::new();
            assert(lines(s@) =~= out.deep_view() + lines_from(s@.skip(i + 1), cur@));
        } else {
            push_char(&mut cur, c);
        }
        i = i + 1;
    }
    proof {
        assert(s@.skip(len as int) =~= Seq::<char>::empty());
    }
    if cur.unicode_len() > 0 {
        out.push(cur);
        assert(lines(s@) =~= out.deep_view());
    } else {
        assert(lines(s@) =~= out.deep_view());
    }
    out
}

/// `line` without one final `'\r'`.
fn strip_cr_string(line: String) -> (res: String)
    ensures
        res@ == strip_cr(line@),
{
    let n = line.as_str().unicode_len();
    if n > 0 && line.as_str().get_char(n - 1) == '\r' {
        String::from_str(line.as_str().substring_char(0, n - 1))
    } else {
        line
    }
}


/// The strings `parts[from..]` joined with `sep`, as `parts[from..].join(sep)` gives it.
pub fn join_from(parts: &Vec<String>, from: usize, sep: &str) -> (res: String)
    requires
        from <= parts.len(),
    ensures
        res@ == join(parts.deep_view().skip(from as int), sep@),
{
    let ghost all = parts.deep_view();
    let mut res = String::new();
    let mut i = from;
    assert(all.skip(from as int).take(0) =~= Seq::<Seq<char>>::empty());
    while i < parts.len()
        invariant
            from <= i <= parts.len(),
            all == parts.deep_view(),
            res@ == join(all.skip(from as int).take(i - from), sep@),
        decreases parts.len() - i,
    {
        let ghost prefix = all.skip(from as int).take(i + 1 - from);
        assert(prefix.drop_last() =~= all.skip(from as int).take(i - from));
        assert(prefix.last() == parts[i as int]@);
        if i != from {
            res.append(sep);
        }
        res.append(parts[i].as_str());
        i = i + 1;
    }
    assert(all.skip(from as int).take(parts.len() - from) =~= all.skip(from as int));
    res
}

/// The lines of `s` after its first one, joined with `'\n'`.
pub open spec fn after_first_line(s: Seq<char>) -> Seq<char> {
    if lines(s).len() == 0 {
        Seq::empty()
    } else {
        join(lines(s).skip(1), "\n"@)
    }
}

/// Everything after the first line of `s`, re-joined with `'\n'`: what
/// `s.lines().skip(1).collect::<Vec<_>>().join("\n")` gives.
pub fn without_first_line(s: &str) -> (res: String)
    ensures
        res@ == after_first_line(s@),
{
    let all = split_lines(s);
    if all.len() == 0 {
        assert(lines(s@).len() == 0);
        String::new()
    } else {
        join_from(&all, 1, "\n")
    }
}

/// `msg` ending in exactly the `'\n'` it had, or with one added when it had none.
pub open spec fn with_final_newline(msg: Seq<char>) -> Seq<char> {
    if msg.len() > 0 && msg.last() == '\n' {
        msg
    } else {
        msg.push('\n')
    }
}

/// The line written to a task's log file for `msg`: the message, ended by a newline.
pub fn log_line(msg: String) -> (res: String)
    ensures
        res@ == with_final_newline(msg@),
{
    let n = msg.as_str().unicode_len();
    if n > 0 && msg.as_str().get_char(n - 1) == '\n' {
        msg
    } else {
        let mut out = msg;
        push_char(&mut out, '\n');
        out
    }
}

/// A log line already ends in a newline, so it is its own log line.
pub proof fn lemma_log_line_idempotent(msg: Seq<char>)
    ensures
        with_final_newline(with_final_newline(msg)) == with_final_newline(msg),
        with_final_newline(msg).last() == '\n',
{
}

/// The decimal digit character for `d`.
pub open spec fn digit_char(d: nat) -> char {
    (48 + d) as char
}

/// The decimal notation of `n`, without leading zeros.
pub open spec fn decimal(n: nat) -> Seq<char>
    decreases n,
{
    if n < 10 {
        seq![digit_char(n)]
    } else {
        decimal(n / 10).push(digit_char(n % 10))
    }
}

/// The decimal notation of `n`, as `n.to_string()` gives it.
pub fn decimal_string(n: u32) -> (res: String)
    ensures
        res@ == decimal(n as nat),
{
    let mut digits: Vec<char> = Vec::new();
    let mut m = n;
    loop
        invariant_except_break
            decimal(n as nat) == decimal(m as nat) + digits@.reverse(),
            m <= n,
        ensures
            decimal(n as nat) == digits@.reverse(),
        decreases m,
    {
        let d = m % 10;
        let c = digit_of(d);
        if m < 10 {
            proof {
                assert(decimal(m as nat) == seq![c]);
                assert(digits@.push(c).reverse() =~= seq![c] + digits@.reverse());
            }
            digits.push(c);
            break;
        }
        proof {
            assert(decimal(m as nat) == decimal((m / 10) as nat).push(c));
            assert(digits@.push(c).reverse() =~= seq![c] + digits@.reverse());
        }
        digits.push(c);
        m = m / 10;
    }
    let mut res = String::new();
    let mut i = digits.len();
    let ghost all = digits@.reverse();
    while i > 0
        invariant
            i <= digits.len(),
            all == digits@.reverse(),
            decimal(n as nat) == all,
            res@ == all.take(digits.len() - i),
        decreases i,
    {
        i = i - 1;
        push_char(&mut res, digits[i]);
        assert(all.take(digits.len() - i) =~= all.take(digits.len() - i - 1).push(digits@[i as int]));
    }
    assert(all.take(digits.len() as int) =~= all);
    res
}

fn digit_of(d: u32) -> (c: char)
    requires
        d < 10,
    ensures
        c == digit_char(d as nat),
{
    let b: u8 = 48u8 + (d as u8);
    b as char
}

} // verus!
