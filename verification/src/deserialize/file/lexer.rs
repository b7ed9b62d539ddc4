//! The `SiMai` metadata file (`maidata.txt`): a list of `&key=content` entries.
//!
//! An entry starts at an `&` that begins a line (the first character of the file, or one
//! right after a `'\n'`). Its key runs from after the `&` to the first `=` on that line; its
//! content is everything after that `=` up to the start of the next entry or the end of the
//! file, and so may span several lines. An entry with no `=` on its first line has no key
//! and is skipped. Before the first entry only white space may stand. Keys and contents are
//! trimmed of white space, and a later entry with the same key replaces an earlier one.
use vstd::prelude::*;
use vstd::string::*;

verus! {

// ---------------------------------------------------------------------------
// The format
// ---------------------------------------------------------------------------

/// Unicode white space, as `char::is_whitespace` recognises it.
pub open spec fn is_white_space(c: char) -> bool {
    let u = c as u32;
    ||| 0x09 <= u <= 0x0D
    ||| u == 0x20
    ||| u == 0x85
    ||| u == 0xA0
    ||| u == 0x1680
    ||| 0x2000 <= u <= 0x200A
    ||| u == 0x2028
    ||| u == 0x2029
    ||| u == 0x202F
    ||| u == 0x205F
    ||| u == 0x3000
}

/// Whether an entry starts at position `i`: an `&` at the start of a line.
pub open spec fn is_entry_start(s: Seq<char>, i: int) -> bool {
    &&& 0 <= i < s.len()
    &&& s[i] == '&'
    &&& (i == 0 || s[i - 1] == '\n')
}

/// The first entry start at or after `i`, or the length of `s` if there is none.
pub open spec fn next_entry_start(s: Seq<char>, i: int) -> int
    decreases s.len() - i,
{
    if i >= s.len() {
        s.len() as int
    } else if is_entry_start(s, i) {
        i
    } else {
        next_entry_start(s, i + 1)
    }
}

/// The first position in `[k, j)` that holds `=` or a line break, or `j` if there is none.
pub open spec fn key_end(s: Seq<char>, k: int, j: int) -> int
    decreases j - k,
{
    if k >= j {
        j
    } else if s[k] == '=' || s[k] == '\n' {
        k
    } else {
        key_end(s, k + 1, j)
    }
}

pub proof fn lemma_next_entry_start(s: Seq<char>, i: int)
    requires
        0 <= i,
    ensures
        i <= next_entry_start(s, i) || (i > s.len() && next_entry_start(s, i) == s.len()),
        next_entry_start(s, i) <= s.len(),
        next_entry_start(s, i) == s.len() || is_entry_start(s, next_entry_start(s, i)),
        forall|k: int| i <= k < next_entry_start(s, i) ==> !is_entry_start(s, k),
    decreases s.len() - i,
{
    if i < s.len() && !is_entry_start(s, i) {
        lemma_next_entry_start(s, i + 1);
    }
}

proof fn lemma_key_end(s: Seq<char>, k: int, j: int)
    requires
        k <= j,
    ensures
        k <= key_end(s, k, j) <= j,
        forall|m: int| k <= m < key_end(s, k, j) ==> s[m] != '=' && s[m] != '\n',
    decreases j - k,
{
    if k < j && !(s[k] == '=' || s[k] == '\n') {
        lemma_key_end(s, k + 1, j);
    }
}

/// The entries from the entry start `i` on, as `(key, content)` pairs before trimming; an
/// entry with no `=` on its first line has no key and is left out.
pub open spec fn entries_from(s: Seq<char>, i: int) -> Seq<(Seq<char>, Seq<char>)>
    decreases s.len() - i,
{
    if i < 0 || i >= s.len() {
        Seq::empty()
    } else {
        let j = next_entry_start(s, i + 1);
        let e = key_end(s, i + 1, j);
        proof {
            lemma_next_entry_start(s, i + 1);
        }
        if e < j && s[e] == '=' {
            seq![(s.subrange(i + 1, e), s.subrange(e + 1, j))] + entries_from(s, j)
        } else {
            entries_from(s, j)
        }
    }
}

/// The entries of a file before trimming, or `None` if it is not in the format: something
/// other than white space stands before its first entry.
pub open spec fn lex_file(s: Seq<char>) -> Option<Seq<(Seq<char>, Seq<char>)>> {
    let p = next_entry_start(s, 0);
    if forall|k: int| 0 <= k < p ==> is_white_space(#[trigger] s[k]) {
        Some(entries_from(s, p))
    } else {
        None
    }
}

/// `t` without its leading white space.
pub open spec fn trim_start(t: Seq<char>) -> Seq<char>
    decreases t.len(),
{
    if t.len() > 0 && is_white_space(t[0]) {
        trim_start(t.drop_first())
    } else {
        t
    }
}

/// `t` without its trailing white space.
pub open spec fn trim_end(t: Seq<char>) -> Seq<char>
    decreases t.len(),
{
    if t.len() > 0 && is_white_space(t.last()) {
        trim_end(t.drop_last())
    } else {
        t
    }
}

/// `t` without leading and trailing white space (`str::trim`).
pub open spec fn trim(t: Seq<char>) -> Seq<char> {
    trim_end(trim_start(t))
}

/// The entries with key and content trimmed.
pub open spec fn trimmed(es: Seq<(Seq<char>, Seq<char>)>) -> Seq<(Seq<char>, Seq<char>)> {
    es.map_values(|e: (Seq<char>, Seq<char>)| (trim(e.0), trim(e.1)))
}

/// The map that inserting the entries in order builds: a later key replaces an earlier one.
pub open spec fn map_of(es: Seq<(Seq<char>, Seq<char>)>) -> Map<Seq<char>, Seq<char>>
    decreases es.len(),
{
    if es.len() == 0 {
        Map::empty()
    } else {
        map_of(es.drop_last()).insert(es.last().0, es.last().1)
    }
}

/// What a file of characters `s` reads as: its map of trimmed keys to trimmed contents.
pub open spec fn parse_file(s: Seq<char>) -> Option<Map<Seq<char>, Seq<char>>> {
    match lex_file(s) {
        Some(es) => Some(map_of(trimmed(es))),
        None => None,
    }
}

/// Whether no key occurs twice.
pub open spec fn keys_distinct(es: Seq<(Seq<char>, Seq<char>)>) -> bool {
    forall|i: int, j: int| 0 <= i < j < es.len() ==> #[trigger] es[i].0 != #[trigger] es[j].0
}

/// The pairs of strings as pairs of character sequences.
pub open spec fn pairs_view(v: Seq<(String, String)>) -> Seq<(Seq<char>, Seq<char>)> {
    v.map_values(|p: (String, String)| (p.0@, p.1@))
}

proof fn lemma_map_of_distinct(es: Seq<(Seq<char>, Seq<char>)>)
    requires
        keys_distinct(es),
    ensures
        forall|i: int| 0 <= i < es.len() ==> #[trigger] map_of(es).contains_key(es[i].0) && map_of(
            es,
        )[es[i].0] == es[i].1,
        forall|k: Seq<char>| #[trigger]
            map_of(es).contains_key(k) ==> exists|i: int| 0 <= i < es.len() && es[i].0 == k,
    decreases es.len(),
{
    if es.len() > 0 {
        let init = es.drop_last();
        let last = es[es.len() - 1];
        assert(map_of(es) == map_of(init).insert(last.0, last.1));
        assert(keys_distinct(init)) by {
            assert forall|i: int, j: int| 0 <= i < j < init.len() implies #[trigger] init[i].0
                != #[trigger] init[j].0 by {
                assert(init[i] == es[i] && init[j] == es[j]);
            }
        }
        lemma_map_of_distinct(init);
        assert forall|i: int| 0 <= i < es.len() implies #[trigger] map_of(es).contains_key(
            es[i].0,
        ) && map_of(es)[es[i].0] == es[i].1 by {
            if i < es.len() - 1 {
                assert(init[i] == es[i]);
                assert(es[i].0 != last.0);
                assert(map_of(init).contains_key(init[i].0));
            }
        }
        assert forall|k: Seq<char>| #[trigger]
            map_of(es).contains_key(k) implies exists|i: int| 0 <= i < es.len() && es[i].0 == k by {
            if k != last.0 {
                assert(map_of(init).contains_key(k));
                let i = choose|i: int| 0 <= i < init.len() && init[i].0 == k;
                assert(es[i] == init[i]);
            } else {
                assert(es[es.len() - 1].0 == k);
            }
        }
    }
}

proof fn lemma_map_of_push(es: Seq<(Seq<char>, Seq<char>)>, e: (Seq<char>, Seq<char>))
    ensures
        map_of(es.push(e)) == map_of(es).insert(e.0, e.1),
{
    assert(es.push(e).drop_last() =~= es);
}

proof fn lemma_map_of_replace(es: Seq<(Seq<char>, Seq<char>)>, p: int, e: (Seq<char>, Seq<char>))
    requires
        keys_distinct(es),
        0 <= p < es.len(),
        es[p].0 == e.0,
    ensures
        keys_distinct(es.update(p, e)),
        map_of(es.update(p, e)) == map_of(es).insert(e.0, e.1),
{
    let u = es.update(p, e);
    assert(keys_distinct(u)) by {
        assert forall|i: int, j: int| 0 <= i < j < u.len() implies #[trigger] u[i].0
            != #[trigger] u[j].0 by {
            assert(u[i].0 == es[i].0 && u[j].0 == es[j].0);
        }
    }
    lemma_map_of_distinct(es);
    lemma_map_of_distinct(u);
    let m1 = map_of(u);
    let m2 = map_of(es).insert(e.0, e.1);
    assert forall|k: Seq<char>| m1.contains_key(k) <==> m2.contains_key(k) by {
        if m1.contains_key(k) {
            let i = choose|i: int| 0 <= i < u.len() && u[i].0 == k;
            assert(es[i].0 == k);
            assert(map_of(es).contains_key(es[i].0));
        }
        if m2.contains_key(k) && k != e.0 {
            let i = choose|i: int| 0 <= i < es.len() && es[i].0 == k;
            assert(u[i].0 == k);
            assert(m1.contains_key(u[i].0));
        }
        if k == e.0 {
            assert(u[p].0 == k);
            assert(m1.contains_key(u[p].0));
        }
    }
    assert forall|k: Seq<char>| m1.contains_key(k) implies m1[k] == m2[k] by {
        let i = choose|i: int| 0 <= i < u.len() && u[i].0 == k;
        assert(m1[u[i].0] == u[i].1);
        if i != p {
            assert(u[i] == es[i]);
            assert(map_of(es)[es[i].0] == es[i].1);
        }
    }
    assert(m1 =~= m2);
}

// ---------------------------------------------------------------------------
// Reading the characters
// ---------------------------------------------------------------------------

/// Whether `c` is white space (`char::is_whitespace`).
pub fn is_white_space_char(c: char) -> (r: bool)
    ensures
        r == is_white_space(c),
{
    let u = c as u32;
    (0x09 <= u && u <= 0x0D) || u == 0x20 || u == 0x85 || u == 0xA0 || u == 0x1680 || (0x2000
        <= u && u <= 0x200A) || u == 0x2028 || u == 0x2029 || u == 0x202F || u == 0x205F || u
        == 0x3000
}

fn chars_of(value: &str) -> (r: Vec<char>)
    ensures
        r@ == value@,
{
    let mut out: Vec<char> = Vec::new();
    for c in iter: value.chars()
        invariant
            out@ == iter.seq().take(iter.index() as int),
    {
        out.push(c);
    }
    proof {
        broadcast use vstd::string::group_string_axioms;

    }
    out
}

fn find_entry_start(chars: &Vec<char>, from: usize) -> (r: usize)
    requires
        from <= chars.len(),
    ensures
        r == next_entry_start(chars@, from as int),
        from <= r <= chars.len(),
{
    let ghost s = chars@;
    let mut i = from;
    while i < chars.len()
        invariant
            s == chars@,
            from <= i <= chars.len(),
            next_entry_start(s, from as int) == next_entry_start(s, i as int),
        decreases chars.len() - i,
    {
        if chars[i] == '&' && (i == 0 || chars[i - 1] == '\n') {
            return i;
        }
        i = i + 1;
    }
    i
}

fn find_key_end(chars: &Vec<char>, from: usize, to: usize) -> (r: usize)
    requires
        from <= to <= chars.len(),
    ensures
        r == key_end(chars@, from as int, to as int),
        from <= r <= to,
{
    let ghost s = chars@;
    let mut k = from;
    while k < to
        invariant
            s == chars@,
            from <= k <= to <= chars.len(),
            key_end(s, from as int, to as int) == key_end(s, k as int, to as int),
        decreases to - k,
    {
        if chars[k] == '=' || chars[k] == '\n' {
            return k;
        }
        k = k + 1;
    }
    k
}

/// Where the key and the content of one entry lie, as character positions.
#[derive(Clone, Copy, Debug)]
struct EntrySpan {
    key_start: usize,
    key_end: usize,
    content_start: usize,
    content_end: usize,
}

spec fn span_ok(s: Seq<char>, sp: EntrySpan) -> bool {
    sp.key_start <= sp.key_end <= sp.content_start <= sp.content_end <= s.len()
}

spec fn span_entry(s: Seq<char>, sp: EntrySpan) -> (Seq<char>, Seq<char>) {
    (
        s.subrange(sp.key_start as int, sp.key_end as int),
        s.subrange(sp.content_start as int, sp.content_end as int),
    )
}

spec fn spans_view(s: Seq<char>, v: Seq<EntrySpan>) -> Seq<(Seq<char>, Seq<char>)> {
    v.map_values(|sp: EntrySpan| span_entry(s, sp))
}

fn lex_spans(chars: &Vec<char>) -> (r: Option<Vec<EntrySpan>>)
    ensures
        match r {
            Some(v) => lex_file(chars@) == Some(spans_view(chars@, v@)) && forall|i: int|
                0 <= i < v.len() ==> span_ok(chars@, #[trigger] v@[i]),
            None => lex_file(chars@) is None,
        },
{
    let ghost s = chars@;
    let n = chars.len();
    let p = find_entry_start(chars, 0);
    let mut k: usize = 0;
    while k < p
        invariant
            s == chars@,
            p <= n == chars.len(),
            p == next_entry_start(s, 0),
            k <= p,
            forall|m: int| 0 <= m < k ==> is_white_space(#[trigger] s[m]),
        decreases p - k,
    {
        if !is_white_space_char(chars[k]) {
            return None;
        }
        k = k + 1;
    }
    proof {
        lemma_next_entry_start(s, 0);
        assert(spans_view(s, Seq::<EntrySpan>::empty()) + entries_from(s, p as int)
            =~= entries_from(s, p as int));
    }
    let mut out: Vec<EntrySpan> = Vec::new();
    let mut i = p;
    while i < n
        invariant
            s == chars@,
            n == chars.len(),
            p <= i <= n,
            i == n || is_entry_start(s, i as int),
            lex_file(s) == Some(spans_view(s, out@) + entries_from(s, i as int)),
            forall|m: int| 0 <= m < out.len() ==> span_ok(s, #[trigger] out@[m]),
        decreases n - i,
    {
        let j = find_entry_start(chars, i + 1);
        let e = find_key_end(chars, i + 1, j);
        proof {
            lemma_next_entry_start(s, i + 1);
        }
        if e < j && chars[e] == '=' {
            let sp = EntrySpan { key_start: i + 1, key_end: e, content_start: e + 1, content_end: j };
            proof {
                let entry = span_entry(s, sp);
                assert(spans_view(s, out@.push(sp)) =~= spans_view(s, out@).push(entry));
                let rest = entries_from(s, j as int);
                assert(spans_view(s, out@) + (seq![entry] + rest) =~= spans_view(s, out@).push(
                    entry,
                ) + rest);
            }
            out.push(sp);
            i = j;
        } else {
            i = j;
        }
    }
    proof {
        assert(spans_view(s, out@) + Seq::<(Seq<char>, Seq<char>)>::empty() =~= spans_view(
            s,
            out@,
        ));
    }
    Some(out)
}

/// The trimmed range of `chars[lo..hi]`.
fn trim_range(chars: &Vec<char>, lo: usize, hi: usize) -> (r: (usize, usize))
    requires
        lo <= hi <= chars.len(),
    ensures
        lo <= r.0 <= r.1 <= hi,
        chars@.subrange(r.0 as int, r.1 as int) == trim(chars@.subrange(lo as int, hi as int)),
{
    let ghost s = chars@;
    let mut a = lo;
    while a < hi && is_white_space_char(chars[a])
        invariant
            s == chars@,
            lo <= a <= hi <= chars.len(),
            trim_start(s.subrange(lo as int, hi as int)) == trim_start(
                s.subrange(a as int, hi as int),
            ),
        decreases hi - a,
    {
        proof {
            assert(s.subrange(a as int, hi as int).drop_first() =~= s.subrange(
                a + 1,
                hi as int,
            ));
        }
        a = a + 1;
    }
    let mut b = hi;
    while b > a && is_white_space_char(chars[b - 1])
        invariant
            s == chars@,
            lo <= a <= b <= hi <= chars.len(),
            trim(s.subrange(lo as int, hi as int)) == trim_end(s.subrange(a as int, b as int)),
        decreases b - a,
    {
        proof {
            assert(s.subrange(a as int, b as int).drop_last() =~= s.subrange(
                a as int,
                b - 1,
            ));
        }
        b = b - 1;
    }
    (a, b)
}

/// The position of `key` among the keys of `entries`, if it is there.
fn find_key(entries: &Vec<(String, String)>, key: &String) -> (r: Option<usize>)
    ensures
        match r {
            Some(p) => p < entries.len() && entries@[p as int].0@ == key@,
            None => forall|q: int| 0 <= q < entries.len() ==> (#[trigger] entries@[q]).0@ != key@,
        },
{
    let mut p: usize = 0;
    while p < entries.len()
        invariant
            p <= entries.len(),
            forall|q: int| 0 <= q < p ==> (#[trigger] entries@[q]).0@ != key@,
        decreases entries.len() - p,
    {
        if entries[p].0 == *key {
            return Some(p);
        }
        p = p + 1;
    }
    None
}

// ---------------------------------------------------------------------------
// The public interface
// ---------------------------------------------------------------------------

/// The reader of the metadata file format.
pub struct FileLexer;

impl FileLexer {
    /// The entries of `input` that have a key, in the order they appear, key and content
    /// untrimmed; the error `"lexer failed"` if `input` is not in the format.
    pub fn raw_parse_str(input: &str) -> (r: Result<Vec<(String, String)>, &'static str>)
        ensures
            match r {
                Ok(v) => lex_file(input@) == Some(pairs_view(v@)),
                Err(e) => lex_file(input@) is None && e == "lexer failed",
            },
    {
        let chars = chars_of(input);
        let spans = match lex_spans(&chars) {
            Some(v) => v,
            None => {
                return Err("lexer failed");
            },
        };
        let mut out: Vec<(String, String)> = Vec::new();
        let mut i: usize = 0;
        while i < spans.len()
            invariant
                chars@ == input@,
                lex_file(chars@) == Some(spans_view(chars@, spans@)),
                forall|m: int| 0 <= m < spans.len() ==> span_ok(chars@, #[trigger] spans@[m]),
                i <= spans.len(),
                pairs_view(out@) =~= spans_view(chars@, spans@).take(i as int),
            decreases spans.len() - i,
        {
            let sp = spans[i];
            proof {
                assert(span_ok(chars@, spans@[i as int]));
            }
            let key = String::from_str(input.substring_char(sp.key_start, sp.key_end));
            let content = String::from_str(
                input.substring_char(sp.content_start, sp.content_end),
            );
            out.push((key, content));
            proof {
                assert(spans_view(chars@, spans@).take(i + 1) =~= spans_view(
                    chars@,
                    spans@,
                ).take(i as int).push(span_entry(chars@, sp)));
            }
            i = i + 1;
        }
        proof {
            assert(spans_view(chars@, spans@).take(spans.len() as int) =~= spans_view(
                chars@,
                spans@,
            ));
        }
        Ok(out)
    }
}

/// The entries of a metadata file, each key once, with the content that the file gives it
/// last.
#[derive(Debug)]
pub struct SiMaiFile(Vec<(String, String)>);

impl View for SiMaiFile {
    type V = Map<Seq<char>, Seq<char>>;

    closed spec fn view(&self) -> Map<Seq<char>, Seq<char>> {
        map_of(pairs_view(self.0@))
    }
}

impl SiMaiFile {
    #[verifier::type_invariant]
    spec fn inv(self) -> bool {
        keys_distinct(pairs_view(self.0@))
    }

    /// The file read from `value`: its trimmed keys with their trimmed contents, a later
    /// entry replacing an earlier one of the same key; the error `"lexer failed"` if
    /// `value` is not in the format.
    pub fn parse(value: &str) -> (r: Result<SiMaiFile, &'static str>)
        ensures
            match r {
                Ok(f) => parse_file(value@) == Some(f@),
                Err(e) => parse_file(value@) is None && e == "lexer failed",
            },
    {
        let chars = chars_of(value);
        let spans = match lex_spans(&chars) {
            Some(v) => v,
            None => {
                return Err("lexer failed");
            },
        };
        let ghost es = trimmed(spans_view(chars@, spans@));
        let mut entries: Vec<(String, String)> = Vec::new();
        let mut i: usize = 0;
        while i < spans.len()
            invariant
                chars@ == value@,
                lex_file(chars@) == Some(spans_view(chars@, spans@)),
                es == trimmed(spans_view(chars@, spans@)),
                forall|m: int| 0 <= m < spans.len() ==> span_ok(chars@, #[trigger] spans@[m]),
                i <= spans.len(),
                keys_distinct(pairs_view(entries@)),
                map_of(pairs_view(entries@)) == map_of(es.take(i as int)),
            decreases spans.len() - i,
        {
            let sp = spans[i];
            proof {
                assert(span_ok(chars@, spans@[i as int]));
            }
            let (ka, kb) = trim_range(&chars, sp.key_start, sp.key_end);
            let (ca, cb) = trim_range(&chars, sp.content_start, sp.content_end);
            let key = String::from_str(value.substring_char(ka, kb));
            let content = String::from_str(value.substring_char(ca, cb));
            let ghost entry = (key@, content@);
            assert(entry == es[i as int]);
            assert(es.take(i + 1) =~= es.take(i as int).push(entry));
            let ghost before = pairs_view(entries@);
            proof {
                lemma_map_of_push(es.take(i as int), entry);
            }
            match find_key(&entries, &key) {
                Some(p) => {
                    proof {
                        assert(before[p as int].0 == entry.0);
                        lemma_map_of_replace(before, p as int, entry);
                        assert(pairs_view(entries@.update(p as int, (key, content)))
                            =~= before.update(p as int, entry));
                    }
                    entries.set(p, (key, content));
                },
                None => {
                    proof {
                        lemma_map_of_push(before, entry);
                        assert(pairs_view(entries@.push((key, content))) =~= before.push(entry));
                        let after = before.push(entry);
                        assert forall|x: int, y: int| 0 <= x < y < after.len() implies #[trigger] after[x].0
                            != #[trigger] after[y].0 by {
                            if y == before.len() {
                                assert(after[x] == before[x]);
                                assert(before[x].0 == entries@[x].0@);
                                assert(entries@[x].0@ != key@);
                            } else {
                                assert(after[x] == before[x] && after[y] == before[y]);
                            }
                        }
                    }
                    entries.push((key, content));
                },
            }
            i = i + 1;
        }
        proof {
            assert(es.take(spans.len() as int) =~= es);
        }
        Ok(SiMaiFile(entries))
    }

    /// The content of `key`, if the file has that key.
    pub fn get(&self, key: &str) -> (r: Option<&String>)
        ensures
            r is Some <==> self@.contains_key(key@),
            r matches Some(v) ==> v@ == self@[key@],
    {
        proof {
            use_type_invariant(self);
            lemma_map_of_distinct(pairs_view(self.0@));
        }
        let k = String::from_str(key);
        match find_key(&self.0, &k) {
            Some(p) => {
                proof {
                    let pv = pairs_view(self.0@);
                    assert(pv[p as int] == (self.0@[p as int].0@, self.0@[p as int].1@));
                    assert(map_of(pv).contains_key(pv[p as int].0));
                }
                Some(&self.0[p].1)
            },
            None => {
                proof {
                    if self@.contains_key(key@) {
                        let pv = pairs_view(self.0@);
                        let i = choose|i: int| 0 <= i < pv.len() && pv[i].0 == key@;
                        assert(pv[i] == (self.0@[i].0@, self.0@[i].1@));
                    }
                }
                None
            },
        }
    }

    /// The number of distinct keys.
    pub fn len(&self) -> (r: usize)
        ensures
            r == self@.len(),
    {
        proof {
            use_type_invariant(self);
            lemma_map_of_distinct_len(pairs_view(self.0@));
        }
        self.0.len()
    }

    /// The entries, each key once, that together make up the file's map.
    pub fn entries(&self) -> (r: &Vec<(String, String)>)
        ensures
            keys_distinct(pairs_view(r@)),
            map_of(pairs_view(r@)) == self@,
    {
        proof {
            use_type_invariant(self);
        }
        &self.0
    }
}

proof fn lemma_map_of_distinct_len(es: Seq<(Seq<char>, Seq<char>)>)
    requires
        keys_distinct(es),
    ensures
        map_of(es).dom().finite(),
        map_of(es).len() == es.len(),
    decreases es.len(),
{
    if es.len() > 0 {
        let init = es.drop_last();
        assert(keys_distinct(init)) by {
            assert forall|i: int, j: int| 0 <= i < j < init.len() implies #[trigger] init[i].0
                != #[trigger] init[j].0 by {
                assert(init[i] == es[i] && init[j] == es[j]);
            }
        }
        lemma_map_of_distinct_len(init);
        lemma_map_of_distinct(init);
        if map_of(init).contains_key(es.last().0) {
            let i = choose|i: int| 0 <= i < init.len() && init[i].0 == es.last().0;
            assert(es[i] == init[i]);
        }
    }
}

/// What [`SiMaiFile::try_from`] reads `s` as: the map of the file when `s` is in the format,
/// and the empty map when it is not.
pub open spec fn file_map_or_empty(s: Seq<char>) -> Map<Seq<char>, Seq<char>> {
    match parse_file(s) {
        Some(m) => m,
        None => Map::empty(),
    }
}

/// `SiMaiFile::try_from` never fails: it is [`SiMaiFile::parse`] where the text is in the
/// format, and the file with no entries where it is not. The entries' order inside a file
/// value is not fixed by the map it reads as, so the trait carries no value spec, and the
/// contract is stated on the method.
impl<'a> TryFrom<&'a str> for SiMaiFile {
    type Error = &'static str;

    fn try_from(value: &'a str) -> (r: Result<SiMaiFile, &'static str>)
        ensures
            r is Ok,
            r matches Ok(f) && f@ == file_map_or_empty(value@),
    {
        match SiMaiFile::parse(value) {
            Ok(file) => Ok(file),
            Err(_) => {
                let empty = SiMaiFile(Vec::new());
                proof {
                    assert(pairs_view(empty.0@) =~= Seq::empty());
                    assert(empty@ =~= Map::empty());
                }
                Ok(empty)
            },
        }
    }
}

impl<'a> vstd::std_specs::convert::TryFromSpecImpl<&'a str> for SiMaiFile {
    open spec fn obeys_try_from_spec() -> bool {
        false
    }

    /// A file value with the map that `v` reads as; the value itself (the order of its
    /// entries) is not pinned by the map, hence `obeys_try_from_spec` is `false`.
    open spec fn try_from_spec(v: &'a str) -> Result<SiMaiFile, &'static str> {
        Ok(choose|f: SiMaiFile| f@ == file_map_or_empty(v@))
    }
}

// ---------------------------------------------------------------------------
// Laws of the format
// ---------------------------------------------------------------------------

/// In the map that a list of entries builds, a key is present exactly when some entry has
/// it, and its value is the content of the last entry with that key.
pub proof fn law_last_entry_wins(es: Seq<(Seq<char>, Seq<char>)>, i: int)
    requires
        0 <= i < es.len(),
        forall|j: int| i < j < es.len() ==> #[trigger] es[j].0 != es[i].0,
    ensures
        map_of(es).contains_key(es[i].0),
        map_of(es)[es[i].0] == es[i].1,
    decreases es.len(),
{
    let init = es.drop_last();
    if i < es.len() - 1 {
        assert forall|j: int| i < j < init.len() implies #[trigger] init[j].0 != init[i].0 by {
            assert(init[j] == es[j] && init[i] == es[i]);
        }
        law_last_entry_wins(init, i);
        assert(init[i] == es[i]);
        assert(es[es.len() - 1].0 != es[i].0);
    }
}

/// A key is in the map that a list of entries builds only if some entry has it.
pub proof fn law_keys_come_from_entries(es: Seq<(Seq<char>, Seq<char>)>, k: Seq<char>)
    ensures
        map_of(es).contains_key(k) <==> exists|i: int| 0 <= i < es.len() && #[trigger] es[i].0 == k,
    decreases es.len(),
{
    if es.len() > 0 {
        let init = es.drop_last();
        law_keys_come_from_entries(init, k);
        if exists|i: int| 0 <= i < es.len() && #[trigger] es[i].0 == k {
            let i = choose|i: int| 0 <= i < es.len() && #[trigger] es[i].0 == k;
            if i < es.len() - 1 {
                assert(init[i] == es[i]);
            }
        }
        if map_of(init).contains_key(k) {
            let i = choose|i: int| 0 <= i < init.len() && #[trigger] init[i].0 == k;
            assert(es[i] == init[i]);
        }
    }
}

} // verus!
