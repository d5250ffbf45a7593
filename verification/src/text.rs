//! Character sequences: the searches, trims and splits that every extraction rule
//! of this crate is stated over.

use vstd::prelude::*;

verus! {

/// Whether `c` is white space: one of the code points that Unicode gives the
/// property `White_Space`.
pub open spec fn char_is_whitespace(c: char) -> bool {
    let code = c as u32;
    ||| 0x09 <= code <= 0x0D
    ||| code == 0x20
    ||| code == 0x85
    ||| code == 0xA0
    ||| code == 0x1680
    ||| 0x2000 <= code <= 0x200A
    ||| code == 0x2028
    ||| code == 0x2029
    ||| code == 0x202F
    ||| code == 0x205F
    ||| code == 0x3000
}

/// Whether `c` is a letter or a digit.
pub uninterp spec fn char_is_alphanumeric(c: char) -> bool;

/// The lower-case form of a text.
pub uninterp spec fn lowercase_of(s: Seq<char>) -> Seq<char>;

/// Whether `c` is white space.
pub fn is_whitespace(c: char) -> (b: bool)
    ensures
        b == char_is_whitespace(c),
{
    let code = c as u32;
    (0x09 <= code && code <= 0x0D) || code == 0x20 || code == 0x85 || code == 0xA0 || code
        == 0x1680 || (0x2000 <= code && code <= 0x200A) || code == 0x2028 || code == 0x2029
        || code == 0x202F || code == 0x205F || code == 0x3000
}

/// `char::is_alphanumeric`: the result is the Unicode `Alphabetic` or numeric
/// property of `c`, which this crate only names.
#[verifier::external_body]
pub(crate) fn is_alphanumeric(c: char) -> (b: bool)
    ensures
        b == char_is_alphanumeric(c),
{
    c.is_alphanumeric()
}

/// `str::to_lowercase`: the result is the Unicode lower-case mapping of `s`, which
/// this crate only names.
#[verifier::external_body]
pub(crate) fn to_lowercase(s: &str) -> (lower: String)
    ensures
        lower@ == lowercase_of(s@),
{
    s.to_lowercase()
}

/// `String::from_iter` over the characters of `chars`: the string holds exactly
/// those characters, in order.
#[verifier::external_body]
pub(crate) fn string_of(chars: &Vec<char>) -> (s: String)
    ensures
        s@ == chars@,
{
    String::from_iter(chars.iter())
}

/// Whether `c` is in the ASCII range.
pub open spec fn char_is_ascii(c: char) -> bool {
    (c as u32) < 128
}

/// Whether `c` is in the ASCII range.
pub fn is_ascii(c: char) -> (b: bool)
    ensures
        b == char_is_ascii(c),
{
    (c as u32) < 128
}

/// Whether `p` occurs in `s` starting at index `i`.
pub open spec fn occurs_at(s: Seq<char>, p: Seq<char>, i: int) -> bool {
    0 <= i && i + p.len() <= s.len() && s.subrange(i, i + p.len()) == p
}

/// Whether `p` occurs somewhere in `s`.
pub open spec fn contains(s: Seq<char>, p: Seq<char>) -> bool {
    exists|i: int| occurs_at(s, p, i)
}

/// Whether `s` begins with `p`.
pub open spec fn starts_with(s: Seq<char>, p: Seq<char>) -> bool {
    occurs_at(s, p, 0)
}

/// Whether `s` ends with `p`.
pub open spec fn ends_with(s: Seq<char>, p: Seq<char>) -> bool {
    occurs_at(s, p, s.len() - p.len())
}

/// The characters of `s`, in order.
pub fn to_chars(s: &str) -> (out: Vec<char>)
    ensures
        out@ == s@,
{
    let mut out: Vec<char> = Vec::new();
    let it = s.chars();
    for c in iter: it
        invariant
            out@ == iter.seq().take(iter.index() as int),
            iter.seq() == s@,
    {
        out.push(c);
    }
    out
}

/// Whether `p` occurs in `s` starting at index `i`.
pub fn matches_at(s: &Vec<char>, p: &Vec<char>, i: usize) -> (b: bool)
    ensures
        b == occurs_at(s@, p@, i as int),
{
    if p.len() > s.len() || i > s.len() - p.len() {
        return false;
    }
    let mut k: usize = 0;
    while k < p.len()
        invariant
            k <= p.len(),
            i + p.len() <= s.len(),
            forall|j: int| 0 <= j < k ==> s@[i + j] == p@[j],
        decreases p.len() - k,
    {
        if s[i + k] != p[k] {
            assert(s@.subrange(i as int, i + p.len())[k as int] == s@[i + k]);
            return false;
        }
        k += 1;
    }
    assert(s@.subrange(i as int, i + p.len()) =~= p@);
    true
}

/// Whether `p` occurs somewhere in `s`.
pub fn contains_chars(s: &Vec<char>, p: &Vec<char>) -> (b: bool)
    ensures
        b == contains(s@, p@),
{
    if p.len() > s.len() {
        return false;
    }
    let last: usize = s.len() - p.len();
    let mut i: usize = 0;
    loop
        invariant
            i <= last,
            last == s.len() - p.len(),
            forall|j: int| 0 <= j < i ==> !occurs_at(s@, p@, j),
        ensures
            forall|j: int| 0 <= j <= last ==> !occurs_at(s@, p@, j),
        decreases last - i,
    {
        if matches_at(s, p, i) {
            return true;
        }
        if i == last {
            break;
        }
        i += 1;
    }
    false
}

/// Whether `s` begins with `p`.
pub fn starts_with_chars(s: &Vec<char>, p: &Vec<char>) -> (b: bool)
    ensures
        b == starts_with(s@, p@),
{
    matches_at(s, p, 0)
}

/// Whether `s` ends with `p`.
pub fn ends_with_chars(s: &Vec<char>, p: &Vec<char>) -> (b: bool)
    ensures
        b == ends_with(s@, p@),
{
    if p.len() > s.len() {
        return false;
    }
    matches_at(s, p, s.len() - p.len())
}

/// The views of a list of character vectors.
pub open spec fn views(v: Seq<Vec<char>>) -> Seq<Seq<char>> {
    v.map_values(|x: Vec<char>| x@)
}

/// The views of a list of strings.
pub open spec fn string_views(v: Seq<String>) -> Seq<Seq<char>> {
    v.map_values(|x: String| x@)
}

/// `s` without its leading white space.
pub open spec fn trim_start(s: Seq<char>) -> Seq<char>
    decreases s.len(),
{
    if s.len() > 0 && char_is_whitespace(s.first()) {
        trim_start(s.drop_first())
    } else {
        s
    }
}

/// `s` without its trailing white space.
pub open spec fn trim_end(s: Seq<char>) -> Seq<char>
    decreases s.len(),
{
    if s.len() > 0 && char_is_whitespace(s.last()) {
        trim_end(s.drop_last())
    } else {
        s
    }
}

/// `s` without leading and trailing white space.
pub open spec fn trim(s: Seq<char>) -> Seq<char> {
    trim_end(trim_start(s))
}

/// The index of the first `c` in `s`, or the length of `s` where there is none.
pub open spec fn index_of(s: Seq<char>, c: char) -> int
    decreases s.len(),
{
    if s.len() == 0 || s.first() == c {
        0
    } else {
        1 + index_of(s.drop_first(), c)
    }
}

/// `index_of` is the one index before which no `c` stands and at which one does,
/// unless it is the length.
pub proof fn lemma_index_of(s: Seq<char>, c: char, k: int)
    requires
        0 <= k <= s.len(),
        forall|i: int| 0 <= i < k ==> s[i] != c,
        k < s.len() ==> s[k] == c,
    ensures
        index_of(s, c) == k,
    decreases s.len(),
{
    if s.len() == 0 || s.first() == c {
    } else {
        lemma_index_of(s.drop_first(), c, k - 1);
    }
}

/// `line` without one trailing carriage return.
pub open spec fn strip_cr(line: Seq<char>) -> Seq<char> {
    if line.len() > 0 && line.last() == '\r' {
        line.drop_last()
    } else {
        line
    }
}

/// The lines of `s`: the text is cut at every line feed, a carriage return just
/// before a line feed goes with it, and a last line needs no line feed.
pub open spec fn lines(s: Seq<char>) -> Seq<Seq<char>>
    decreases s.len(),
{
    if s.len() == 0 {
        Seq::empty()
    } else {
        let k = index_of(s, '\n');
        if k < 0 || k >= s.len() {
            seq![s]
        } else {
            seq![strip_cr(s.subrange(0, k))] + lines(s.subrange(k + 1, s.len() as int))
        }
    }
}

/// The characters of `s` from index `from` up to `to`.
pub fn slice_chars(s: &Vec<char>, from: usize, to: usize) -> (out: Vec<char>)
    requires
        from <= to <= s.len(),
    ensures
        out@ == s@.subrange(from as int, to as int),
{
    let mut out: Vec<char> = Vec::new();
    let mut i: usize = from;
    while i < to
        invariant
            from <= i <= to <= s.len(),
            out@ == s@.subrange(from as int, i as int),
        decreases to - i,
    {
        out.push(s[i]);
        i += 1;
        assert(out@ =~= s@.subrange(from as int, i as int));
    }
    assert(out@ =~= s@.subrange(from as int, to as int));
    out
}

/// Appends `src` to `dst`.
pub fn push_all(dst: &mut Vec<char>, src: &Vec<char>)
    ensures
        final(dst)@ == old(dst)@ + src@,
{
    let mut i: usize = 0;
    while i < src.len()
        invariant
            i <= src.len(),
            dst@ == old(dst)@ + src@.take(i as int),
        decreases src.len() - i,
    {
        dst.push(src[i]);
        i += 1;
        assert(dst@ =~= old(dst)@ + src@.take(i as int));
    }
    assert(src@.take(src.len() as int) =~= src@);
}

/// Whether two character vectors hold the same text.
pub fn same_chars(a: &Vec<char>, b: &Vec<char>) -> (eq: bool)
    ensures
        eq == (a@ == b@),
{
    if a.len() != b.len() {
        return false;
    }
    let eq = matches_at(a, b, 0);
    proof {
        if a@ == b@ {
            assert(a@.subrange(0, b@.len() as int) =~= b@);
        } else if eq {
            assert(a@.subrange(0, b@.len() as int) =~= a@);
        }
    }
    eq
}

/// `s` without leading and trailing white space.
pub fn trim_chars(s: &Vec<char>) -> (out: Vec<char>)
    ensures
        out@ == trim(s@),
{
    let n: usize = s.len();
    let mut a: usize = 0;
    assert(s@.subrange(0, n as int) =~= s@);
    while a < n && is_whitespace(s[a])
        invariant
            a <= n,
            n == s.len(),
            trim_start(s@) == trim_start(s@.subrange(a as int, n as int)),
        decreases n - a,
    {
        assert(s@.subrange(a as int, n as int).drop_first() =~= s@.subrange(a + 1, n as int));
        a += 1;
    }
    let ghost t = s@.subrange(a as int, n as int);
    assert(trim_start(s@) == t);
    let mut b: usize = n;
    while b > a && is_whitespace(s[b - 1])
        invariant
            a <= b <= n,
            n == s.len(),
            t == s@.subrange(a as int, n as int),
            trim_end(t) == trim_end(s@.subrange(a as int, b as int)),
        decreases b - a,
    {
        assert(s@.subrange(a as int, b as int).drop_last() =~= s@.subrange(a as int, b - 1));
        b -= 1;
    }
    slice_chars(s, a, b)
}

/// The index of the first `c` in `s` at or after `from`, or the length of `s`.
pub fn find_char(s: &Vec<char>, c: char, from: usize) -> (at: usize)
    requires
        from <= s.len(),
    ensures
        from <= at <= s.len(),
        at - from == index_of(s@.subrange(from as int, s.len() as int), c),
{
    let mut at: usize = from;
    while at < s.len() && s[at] != c
        invariant
            from <= at <= s.len(),
            forall|i: int| from <= i < at ==> s@[i] != c,
        decreases s.len() - at,
    {
        at += 1;
    }
    proof {
        lemma_index_of(s@.subrange(from as int, s.len() as int), c, at - from);
    }
    at
}

/// The lines of `s`.
pub fn split_lines(s: &Vec<char>) -> (out: Vec<Vec<char>>)
    ensures
        views(out@) == lines(s@),
{
    let n: usize = s.len();
    let mut out: Vec<Vec<char>> = Vec::new();
    let mut pos: usize = 0;
    assert(s@.subrange(0, n as int) =~= s@);
    while pos < n
        invariant
            pos <= n,
            n == s.len(),
            lines(s@) == views(out@) + lines(s@.subrange(pos as int, n as int)),
        decreases n - pos,
    {
        let ghost rest = s@.subrange(pos as int, n as int);
        let ghost before = views(out@);
        let at = find_char(s, '\n', pos);
        if at >= n {
            let line = slice_chars(s, pos, n);
            out.push(line);
            assert(views(out@) =~= before + seq![rest]);
            pos = n;
            assert(lines(s@.subrange(n as int, n as int)) =~= Seq::<Seq<char>>::empty());
            assert(lines(rest) =~= seq![rest]);
        } else {
            let end: usize = if at > pos && s[at - 1] == '\r' {
                at - 1
            } else {
                at
            };
            let line = slice_chars(s, pos, end);
            assert(rest.subrange(0, at - pos) =~= s@.subrange(pos as int, at as int));
            assert(line@ =~= strip_cr(rest.subrange(0, at - pos)));
            assert(rest.subrange(at - pos + 1, rest.len() as int) =~= s@.subrange(
                at + 1,
                n as int,
            ));
            out.push(line);
            assert(views(out@) =~= before + seq![line@]);
            pos = at + 1;
        }
    }
    assert(lines(s@.subrange(n as int, n as int)) =~= Seq::<Seq<char>>::empty());
    assert(views(out@) + Seq::<Seq<char>>::empty() =~= views(out@));
    out
}

/// The view of an optional string.
pub open spec fn opt_view(o: Option<String>) -> Option<Seq<char>> {
    match o {
        Some(s) => Some(s@),
        None => None,
    }
}

/// `parts` joined with `sep` between neighbours.
pub open spec fn join(parts: Seq<Seq<char>>, sep: Seq<char>) -> Seq<char>
    decreases parts.len(),
{
    if parts.len() == 0 {
        Seq::empty()
    } else if parts.len() == 1 {
        parts[0]
    } else {
        join(parts.drop_last(), sep) + sep + parts.last()
    }
}

/// The condition of holding at least one character.
pub open spec fn is_nonempty() -> spec_fn(Seq<char>) -> bool {
    |l: Seq<char>| l.len() > 0
}

/// Each line trimmed, the empty ones dropped.
pub open spec fn trimmed_nonempty(ls: Seq<Seq<char>>) -> Seq<Seq<char>> {
    ls.map_values(|l: Seq<char>| trim(l)).filter(is_nonempty())
}

/// Whether cleaning keeps `c`: ASCII and white space stay.
pub open spec fn is_kept() -> spec_fn(char) -> bool {
    |c: char| char_is_ascii(c) || char_is_whitespace(c)
}

/// The cleaned form of `s`: every line trimmed, empty lines dropped, the rest
/// joined with single spaces, and then every character dropped that is neither
/// ASCII nor white space.
pub open spec fn cleaned(s: Seq<char>) -> Seq<char> {
    join(trimmed_nonempty(lines(s)), seq![' ']).filter(is_kept())
}

/// The cleaned form of `s`.
pub fn clean_chars(s: &Vec<char>) -> (out: Vec<char>)
    ensures
        out@ == cleaned(s@),
{
    let ls = split_lines(s);
    let ghost all = views(ls@);
    let mut joined: Vec<char> = Vec::new();
    let mut any: bool = false;
    let mut i: usize = 0;
    proof {
        reveal(Seq::filter);
        assert(all.take(0).map_values(|l: Seq<char>| trim(l)) =~= Seq::empty());
    }
    while i < ls.len()
        invariant
            i <= ls.len(),
            all == views(ls@),
            joined@ == join(trimmed_nonempty(all.take(i as int)), seq![' ']),
            any == (trimmed_nonempty(all.take(i as int)).len() > 0),
        decreases ls.len() - i,
    {
        let t = trim_chars(&ls[i]);
        proof {
            let before = all.take(i as int).map_values(|l: Seq<char>| trim(l));
            assert(all[i as int] == ls@[i as int]@);
            assert(all.take(i + 1).map_values(|l: Seq<char>| trim(l)) =~= before.push(t@));
            before.lemma_filter_push(t@, is_nonempty());
            let kept = trimmed_nonempty(all.take(i as int));
            if t@.len() > 0 {
                assert(kept.push(t@).drop_last() =~= kept);
            }
        }
        if t.len() > 0 {
            if any {
                joined.push(' ');
            }
            push_all(&mut joined, &t);
            any = true;
            proof {
                let kept = trimmed_nonempty(all.take(i as int));
                assert(joined@ =~= join(kept.push(t@), seq![' ']));
            }
        }
        i += 1;
    }
    assert(all.take(ls.len() as int) =~= all);
    let mut out: Vec<char> = Vec::new();
    let mut k: usize = 0;
    assert(joined@.take(0) =~= Seq::<char>::empty());
    while k < joined.len()
        invariant
            k <= joined.len(),
            out@ == joined@.take(k as int).filter(is_kept()),
        decreases joined.len() - k,
    {
        let c = joined[k];
        proof {
            assert(joined@.take(k + 1) =~= joined@.take(k as int).push(c));
            joined@.take(k as int).lemma_filter_push(c, is_kept());
        }
        let white = is_whitespace(c);
        if is_ascii(c) || white {
            out.push(c);
        }
        k += 1;
    }
    assert(joined@.take(joined.len() as int) =~= joined@);
    out
}

/// The view of an optional string slice.
pub open spec fn opt_str_view(o: Option<&str>) -> Option<Seq<char>> {
    match o {
        Some(s) => Some(s@),
        None => None,
    }
}

/// Whether two string slices hold the same text.
pub fn same_text(a: &str, b: &str) -> (eq: bool)
    ensures
        eq == (a@ == b@),
{
    let x = to_chars(a);
    let y = to_chars(b);
    same_chars(&x, &y)
}

/// Whether `p` occurs somewhere in `s`.
pub fn str_contains(s: &str, p: &str) -> (b: bool)
    ensures
        b == contains(s@, p@),
{
    let x = to_chars(s);
    let y = to_chars(p);
    contains_chars(&x, &y)
}

/// Whether `s` begins with `p`.
pub fn str_starts_with(s: &str, p: &str) -> (b: bool)
    ensures
        b == starts_with(s@, p@),
{
    let x = to_chars(s);
    let y = to_chars(p);
    starts_with_chars(&x, &y)
}

/// Whether `s` ends with `p`.
pub fn str_ends_with(s: &str, p: &str) -> (b: bool)
    ensures
        b == ends_with(s@, p@),
{
    let x = to_chars(s);
    let y = to_chars(p);
    ends_with_chars(&x, &y)
}

/// `s` without leading and trailing white space.
pub fn str_trim(s: &str) -> (out: String)
    ensures
        out@ == trim(s@),
{
    let x = to_chars(s);
    let t = trim_chars(&x);
    string_of(&t)
}

/// The keys of `keys` without repetition, each at the place of its first occurrence.
pub open spec fn distinct(keys: Seq<Seq<char>>) -> Seq<Seq<char>>
    decreases keys.len(),
{
    if keys.len() == 0 {
        Seq::empty()
    } else {
        let before = distinct(keys.drop_last());
        if before.contains(keys.last()) {
            before
        } else {
            before.push(keys.last())
        }
    }
}

/// `distinct` keeps exactly the keys of its argument and repeats none.
pub proof fn lemma_distinct(keys: Seq<Seq<char>>)
    ensures
        distinct(keys).no_duplicates(),
        forall|k: Seq<char>| distinct(keys).contains(k) <==> keys.contains(k),
    decreases keys.len(),
{
    if keys.len() > 0 {
        let front = keys.drop_last();
        lemma_distinct(front);
        let before = distinct(front);
        assert forall|k: Seq<char>| distinct(keys).contains(k) <==> keys.contains(k) by {
            if keys.contains(k) {
                let i = choose|i: int| 0 <= i < keys.len() && keys[i] == k;
                if i < keys.len() - 1 {
                    assert(front[i] == k);
                    assert(front.contains(k));
                    assert(before.contains(k));
                    if !before.contains(keys.last()) {
                        let j = choose|j: int| 0 <= j < before.len() && before[j] == k;
                        assert(before.push(keys.last())[j] == k);
                    }
                } else {
                    if !before.contains(keys.last()) {
                        assert(before.push(keys.last())[before.len() as int] == k);
                    }
                }
            }
            if distinct(keys).contains(k) {
                let j = choose|j: int| 0 <= j < distinct(keys).len() && distinct(keys)[j] == k;
                if j < before.len() {
                    assert(before[j] == k);
                    assert(before.contains(k));
                    assert(front.contains(k));
                    let i = choose|i: int| 0 <= i < front.len() && front[i] == k;
                    assert(keys[i] == k);
                } else {
                    assert(keys[keys.len() - 1] == k);
                }
            }
        }
    }
}

/// A copy of a list of strings.
pub fn copy_strings(list: &Vec<String>) -> (copy: Vec<String>)
    ensures
        string_views(copy@) == string_views(list@),
{
    let mut copy: Vec<String> = Vec::new();
    let mut i: usize = 0;
    while i < list.len()
        invariant
            i <= list.len(),
            copy@.len() == i,
            forall|j: int| 0 <= j < i ==> (#[trigger] copy@[j])@ == list@[j]@,
        decreases list.len() - i,
    {
        copy.push(list[i].clone());
        i += 1;
    }
    assert(string_views(copy@) =~= string_views(list@));
    copy
}

/// A text that is put behind a prefix begins with that prefix.
pub proof fn lemma_begins_with_prefix(prefix: Seq<char>, rest: Seq<char>)
    ensures
        starts_with(prefix + rest, prefix),
{
    assert((prefix + rest).subrange(0, prefix.len() as int) =~= prefix);
}

/// The condition of being ASCII and no white space.
pub open spec fn is_visible_ascii() -> spec_fn(char) -> bool {
    |c: char| char_is_ascii(c) && !char_is_whitespace(c)
}

/// Whether `c` nowhere stands in `s`.
pub open spec fn free_of(s: Seq<char>, c: char) -> bool {
    forall|i: int| 0 <= i < s.len() ==> s[i] != c
}

/// The visible ASCII characters of all `parts`, in order.
pub open spec fn visible_of_all(parts: Seq<Seq<char>>) -> Seq<char>
    decreases parts.len(),
{
    if parts.len() == 0 {
        Seq::empty()
    } else {
        visible_of_all(parts.drop_last()) + parts.last().filter(is_visible_ascii())
    }
}

/// No `c` stands before the first index of `c`, and one stands at it unless it is
/// the length.
pub proof fn lemma_index_of_is_first(s: Seq<char>, c: char)
    ensures
        0 <= index_of(s, c) <= s.len(),
        forall|i: int| 0 <= i < index_of(s, c) ==> s[i] != c,
        index_of(s, c) < s.len() ==> s[index_of(s, c)] == c,
    decreases s.len(),
{
    if s.len() == 0 || s.first() == c {
    } else {
        let rest = s.drop_first();
        lemma_index_of_is_first(rest, c);
        assert forall|i: int| 0 <= i < index_of(s, c) implies s[i] != c by {
            if i > 0 {
                assert(rest[i - 1] == s[i]);
            }
        }
    }
}

/// A text of one white-space character has no visible character.
proof fn lemma_white_is_invisible(c: char)
    requires
        char_is_whitespace(c),
    ensures
        seq![c].filter(is_visible_ascii()) == Seq::<char>::empty(),
{
    reveal(Seq::filter);
    assert(seq![c].drop_last() =~= Seq::<char>::empty());
    assert(seq![c].drop_last().filter(is_visible_ascii()) =~= Seq::<char>::empty());
}

/// Trimming takes away white space only: it brings in no character and keeps
/// every visible one.
pub proof fn lemma_trim_keeps_visible(s: Seq<char>, c: char)
    ensures
        free_of(s, c) ==> free_of(trim(s), c),
        trim(s).filter(is_visible_ascii()) == s.filter(is_visible_ascii()),
{
    lemma_trim_start_keeps_visible(s, c);
    lemma_trim_end_keeps_visible(trim_start(s), c);
}

proof fn lemma_trim_start_keeps_visible(s: Seq<char>, c: char)
    ensures
        free_of(s, c) ==> free_of(trim_start(s), c),
        trim_start(s).filter(is_visible_ascii()) == s.filter(is_visible_ascii()),
    decreases s.len(),
{
    broadcast use Seq::filter_distributes_over_add;

    if s.len() > 0 && char_is_whitespace(s.first()) {
        let rest = s.drop_first();
        lemma_trim_start_keeps_visible(rest, c);
        lemma_white_is_invisible(s.first());
        assert(s =~= seq![s.first()] + rest);
        assert((seq![s.first()] + rest).filter(is_visible_ascii()) == seq![s.first()].filter(
            is_visible_ascii(),
        ) + rest.filter(is_visible_ascii()));
        assert(Seq::<char>::empty() + rest.filter(is_visible_ascii()) =~= rest.filter(
            is_visible_ascii(),
        ));
        if free_of(s, c) {
            assert forall|i: int| 0 <= i < rest.len() implies rest[i] != c by {
                assert(rest[i] == s[i + 1]);
            }
        }
    }
}

proof fn lemma_trim_end_keeps_visible(s: Seq<char>, c: char)
    ensures
        free_of(s, c) ==> free_of(trim_end(s), c),
        trim_end(s).filter(is_visible_ascii()) == s.filter(is_visible_ascii()),
    decreases s.len(),
{
    if s.len() > 0 && char_is_whitespace(s.last()) {
        let front = s.drop_last();
        lemma_trim_end_keeps_visible(front, c);
        assert(s =~= front.push(s.last()));
        front.lemma_filter_push(s.last(), is_visible_ascii());
        if free_of(s, c) {
            assert forall|i: int| 0 <= i < front.len() implies front[i] != c by {
                assert(front[i] == s[i]);
            }
        }
    }
}

/// The visible characters of a single part.
proof fn lemma_visible_of_one(part: Seq<char>)
    ensures
        visible_of_all(seq![part]) == part.filter(is_visible_ascii()),
{
    let one = seq![part];
    assert(one.drop_last() =~= Seq::<Seq<char>>::empty());
    assert(visible_of_all(one.drop_last()) =~= Seq::<char>::empty());
    assert(one.last() == part);
    assert(Seq::<char>::empty() + part.filter(is_visible_ascii()) =~= part.filter(
        is_visible_ascii(),
    ));
}

/// The visible characters of a first part and of further parts are those of the
/// first part followed by those of the others.
proof fn lemma_visible_of_first_and_rest(first: Seq<char>, rest: Seq<Seq<char>>)
    ensures
        visible_of_all(seq![first] + rest) == first.filter(is_visible_ascii()) + visible_of_all(
            rest,
        ),
    decreases rest.len(),
{
    let vis = is_visible_ascii();
    if rest.len() == 0 {
        assert(seq![first] + rest =~= seq![first]);
        lemma_visible_of_one(first);
        assert(first.filter(vis) + Seq::<char>::empty() =~= first.filter(vis));
    } else {
        lemma_visible_of_first_and_rest(first, rest.drop_last());
        assert((seq![first] + rest).drop_last() =~= seq![first] + rest.drop_last());
        assert((seq![first] + rest).last() == rest.last());
        assert(first.filter(vis) + visible_of_all(rest.drop_last()) + rest.last().filter(vis)
            =~= first.filter(vis) + (visible_of_all(rest.drop_last()) + rest.last().filter(vis)));
    }
}

/// Cutting a text into lines takes away line ends only: no line holds a line
/// feed, and the visible characters of the lines are those of the text.
pub proof fn lemma_lines_keep_visible(s: Seq<char>)
    ensures
        forall|i: int| 0 <= i < lines(s).len() ==> free_of(#[trigger] lines(s)[i], '\n'),
        visible_of_all(lines(s)) == s.filter(is_visible_ascii()),
    decreases s.len(),
{
    broadcast use Seq::filter_distributes_over_add;

    let vis = is_visible_ascii();
    reveal(Seq::filter);
    if s.len() == 0 {
        assert(s.filter(vis) =~= Seq::<char>::empty());
    } else {
        let k = index_of(s, '\n');
        lemma_index_of_is_first(s, '\n');
        if k >= s.len() {
            lemma_visible_of_one(s);
        } else {
            let head = s.subrange(0, k);
            let rest = s.subrange(k + 1, s.len() as int);
            let line = strip_cr(head);
            lemma_lines_keep_visible(rest);
            lemma_visible_of_first_and_rest(line, lines(rest));
            assert(free_of(line, '\n'));
            assert forall|i: int| 0 <= i < lines(s).len() implies free_of(
                #[trigger] lines(s)[i],
                '\n',
            ) by {
                if i > 0 {
                    assert(lines(s)[i] == lines(rest)[i - 1]);
                }
            }
            assert(line.filter(vis) == head.filter(vis)) by {
                if head.len() > 0 && head.last() == '\r' {
                    assert(head =~= head.drop_last().push('\r'));
                    head.drop_last().lemma_filter_push('\r', vis);
                }
            }
            lemma_white_is_invisible('\n');
            assert(s =~= head + seq!['\n'] + rest);
            assert((head + seq!['\n'] + rest).filter(vis) == head.filter(vis) + seq!['\n'].filter(
                vis,
            ) + rest.filter(vis));
            assert(head.filter(vis) + Seq::<char>::empty() + rest.filter(vis) =~= head.filter(vis)
                + rest.filter(vis));
        }
    }
}

/// Trimming the lines and dropping the empty ones brings in no character and
/// keeps every visible one.
pub proof fn lemma_trimmed_nonempty_keep_visible(ls: Seq<Seq<char>>, c: char)
    ensures
        (forall|i: int| 0 <= i < ls.len() ==> free_of(#[trigger] ls[i], c)) ==> (forall|i: int|
            0 <= i < trimmed_nonempty(ls).len() ==> free_of(#[trigger] trimmed_nonempty(ls)[i], c)),
        visible_of_all(trimmed_nonempty(ls)) == visible_of_all(ls),
    decreases ls.len(),
{
    reveal(Seq::filter);
    let mapped = ls.map_values(|l: Seq<char>| trim(l));
    if ls.len() == 0 {
        assert(mapped =~= Seq::<Seq<char>>::empty());
    } else {
        let front = ls.drop_last();
        let last = ls.last();
        let t = trim(last);
        lemma_trimmed_nonempty_keep_visible(front, c);
        lemma_trim_keeps_visible(last, c);
        let before = front.map_values(|l: Seq<char>| trim(l));
        assert(mapped =~= before.push(t));
        before.lemma_filter_push(t, is_nonempty());
        let kept = trimmed_nonempty(front);
        if t.len() > 0 {
            assert(trimmed_nonempty(ls) == kept.push(t));
            assert(kept.push(t).drop_last() =~= kept);
        } else {
            assert(trimmed_nonempty(ls) == kept);
            assert(t.filter(is_visible_ascii()) =~= Seq::<char>::empty());
            assert(visible_of_all(front) + Seq::<char>::empty() =~= visible_of_all(front));
        }
        if forall|i: int| 0 <= i < ls.len() ==> free_of(#[trigger] ls[i], c) {
            assert forall|i: int| 0 <= i < front.len() implies free_of(#[trigger] front[i], c) by {
                assert(front[i] == ls[i]);
            }
            assert(free_of(ls[ls.len() - 1], c));
        }
    }
}

/// Joining with single spaces brings in nothing but spaces and keeps every
/// visible character.
pub proof fn lemma_join_keeps_visible(parts: Seq<Seq<char>>, c: char)
    ensures
        c != ' ' && (forall|i: int| 0 <= i < parts.len() ==> free_of(#[trigger] parts[i], c))
            ==> free_of(join(parts, seq![' ']), c),
        join(parts, seq![' ']).filter(is_visible_ascii()) == visible_of_all(parts),
    decreases parts.len(),
{
    broadcast use Seq::filter_distributes_over_add;

    let vis = is_visible_ascii();
    reveal(Seq::filter);
    if parts.len() == 0 {
        assert(join(parts, seq![' ']).filter(vis) =~= Seq::<char>::empty());
    } else if parts.len() == 1 {
        assert(parts =~= seq![parts[0]]);
        lemma_visible_of_one(parts[0]);
    } else {
        let front = parts.drop_last();
        lemma_join_keeps_visible(front, c);
        lemma_white_is_invisible(' ');
        let joined = join(front, seq![' ']);
        assert((joined + seq![' '] + parts.last()).filter(vis) == joined.filter(vis) + seq![
            ' ',
        ].filter(vis) + parts.last().filter(vis));
        assert(joined.filter(vis) + Seq::<char>::empty() + parts.last().filter(vis)
            =~= joined.filter(vis) + parts.last().filter(vis));
        if c != ' ' && (forall|i: int| 0 <= i < parts.len() ==> free_of(#[trigger] parts[i], c)) {
            assert forall|i: int| 0 <= i < front.len() implies free_of(#[trigger] front[i], c) by {
                assert(front[i] == parts[i]);
            }
            assert(free_of(parts[parts.len() - 1], c));
        }
    }
}

/// Dropping what is neither ASCII nor white space leaves only ASCII and white
/// space, brings in no character, and keeps every visible one.
pub proof fn lemma_kept_keeps_visible(s: Seq<char>, c: char)
    ensures
        forall|i: int|
            0 <= i < s.filter(is_kept()).len() ==> char_is_ascii(#[trigger] s.filter(is_kept())[i])
                || char_is_whitespace(s.filter(is_kept())[i]),
        free_of(s, c) ==> free_of(s.filter(is_kept()), c),
        s.filter(is_kept()).filter(is_visible_ascii()) == s.filter(is_visible_ascii()),
    decreases s.len(),
{
    reveal(Seq::filter);
    if s.len() > 0 {
        let front = s.drop_last();
        lemma_kept_keeps_visible(front, c);
        assert(s =~= front.push(s.last()));
        front.lemma_filter_push(s.last(), is_kept());
        front.lemma_filter_push(s.last(), is_visible_ascii());
        front.filter(is_kept()).lemma_filter_push(s.last(), is_visible_ascii());
        if free_of(s, c) {
            assert forall|i: int| 0 <= i < front.len() implies front[i] != c by {
                assert(front[i] == s[i]);
            }
        }
    }
}

/// What cleaning leaves of a text: only ASCII and white space, no line feed, and
/// the visible ASCII characters of the text, all of them and in their order.
pub proof fn lemma_cleaned_text(s: Seq<char>)
    ensures
        forall|i: int|
            0 <= i < cleaned(s).len() ==> char_is_ascii(#[trigger] cleaned(s)[i])
                || char_is_whitespace(cleaned(s)[i]),
        free_of(cleaned(s), '\n'),
        cleaned(s).filter(is_visible_ascii()) == s.filter(is_visible_ascii()),
{
    let ls = lines(s);
    let kept = trimmed_nonempty(ls);
    let joined = join(kept, seq![' ']);
    lemma_lines_keep_visible(s);
    lemma_trimmed_nonempty_keep_visible(ls, '\n');
    lemma_join_keeps_visible(kept, '\n');
    lemma_kept_keeps_visible(joined, '\n');
}

} // verus!
