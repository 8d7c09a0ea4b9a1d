//! Descriptor scripts: line-oriented `key=value` text naming a package's
//! download source and archive format.

use crate::error::InstallError;
use vstd::prelude::*;

verus! {

/// Characters that `str::trim` strips (Unicode White_Space).
pub open spec fn is_ws(c: char) -> bool {
    let u = c as u32;
    (0x09 <= u && u <= 0x0D) || u == 0x20 || u == 0x85 || u == 0xA0 || u == 0x1680
        || (0x2000 <= u && u <= 0x200A) || u == 0x2028 || u == 0x2029 || u == 0x202F
        || u == 0x205F || u == 0x3000
}

pub open spec fn trim_start(s: Seq<char>) -> Seq<char>
    decreases s.len(),
{
    if s.len() > 0 && is_ws(s[0]) {
        trim_start(s.drop_first())
    } else {
        s
    }
}

pub open spec fn trim_end(s: Seq<char>) -> Seq<char>
    decreases s.len(),
{
    if s.len() > 0 && is_ws(s.last()) {
        trim_end(s.drop_last())
    } else {
        s
    }
}

/// Surrounding whitespace removed from both ends.
pub open spec fn trim(s: Seq<char>) -> Seq<char> {
    trim_end(trim_start(s))
}

/// The text cut at every `'\n'`: one piece more than there are newlines.
pub open spec fn split_nl(s: Seq<char>) -> Seq<Seq<char>>
    decreases s.len(),
{
    if s.len() == 0 {
        seq![Seq::empty()]
    } else {
        let init = split_nl(s.drop_last());
        if s.last() == '\n' {
            init.push(Seq::empty())
        } else {
            init.update(init.len() - 1, init.last().push(s.last()))
        }
    }
}

/// The trimmed value of the last line that starts with `key`, if any does.
pub open spec fn field_value(lines: Seq<Seq<char>>, key: Seq<char>) -> Option<Seq<char>>
    decreases lines.len(),
{
    if lines.len() == 0 {
        None
    } else if key.is_prefix_of(lines.last()) {
        Some(trim(lines.last().skip(key.len() as int)))
    } else {
        field_value(lines.drop_last(), key)
    }
}

pub open spec fn source_key() -> Seq<char> {
    seq!['s', 'o', 'u', 'r', 'c', 'e', '=']
}

pub open spec fn format_key() -> Seq<char> {
    seq!['f', 'o', 'r', 'm', 'a', 't', '=']
}

/// The source and format a script text names, when both are present and non-empty.
pub open spec fn script_fields(text: Seq<char>) -> Option<(Seq<char>, Seq<char>)> {
    let lines = split_nl(text);
    match (field_value(lines, source_key()), field_value(lines, format_key())) {
        (Some(s), Some(f)) => if s.len() > 0 && f.len() > 0 {
            Some((s, f))
        } else {
            None
        },
        _ => None,
    }
}

pub fn is_whitespace(c: char) -> (r: bool)
    ensures
        r == is_ws(c),
{
    let u = c as u32;
    (0x09 <= u && u <= 0x0D) || u == 0x20 || u == 0x85 || u == 0xA0 || u == 0x1680 || (0x2000
        <= u && u <= 0x200A) || u == 0x2028 || u == 0x2029 || u == 0x202F || u == 0x205F || u
        == 0x3000
}

/// The characters of `s` from `from` to `to`, trimmed.
pub fn trimmed_range(s: &str, from: usize, to: usize) -> (r: String)
    requires
        from <= to <= s@.len(),
    ensures
        r@ == trim(s@.subrange(from as int, to as int)),
{
    let mut i = from;
    while i < to && is_whitespace(s.get_char(i))
        invariant
            from <= i <= to <= s@.len(),
            trim_start(s@.subrange(from as int, to as int)) == trim_start(
                s@.subrange(i as int, to as int),
            ),
        decreases to - i,
    {
        assert(s@.subrange(i as int, to as int).drop_first() =~= s@.subrange(
            i + 1,
            to as int,
        ));
        i = i + 1;
    }
    let mut j = to;
    while j > i && is_whitespace(s.get_char(j - 1))
        invariant
            from <= i <= j <= to <= s@.len(),
            trim_end(s@.subrange(i as int, to as int)) == trim_end(
                s@.subrange(i as int, j as int),
            ),
        decreases j,
    {
        assert(s@.subrange(i as int, j as int).drop_last() =~= s@.subrange(
            i as int,
            j - 1,
        ));
        j = j - 1;
    }
    let r = String::from_str(s.substring_char(i, j));
    proof {
        let t = s@.subrange(i as int, j as int);
        assert(trim_end(t) == t);
        let u = s@.subrange(i as int, to as int);
        assert(trim_start(u) == u);
        if i < j {
            assert(u[0] == s@[i as int]);
            assert(t[0] == s@[i as int]);
        }
    }
    r
}

/// Whether the characters of `s` from `from` to `to` begin with `key`.
pub fn starts_with_at(s: &str, from: usize, to: usize, key: &str) -> (r: bool)
    requires
        from <= to <= s@.len(),
    ensures
        r == key@.is_prefix_of(s@.subrange(from as int, to as int)),
{
    let n = key.unicode_len();
    if n > to - from {
        return false;
    }
    let mut k: usize = 0;
    while k < n
        invariant
            n == key@.len(),
            from + n <= to <= s@.len(),
            k <= n,
            forall|m: int| 0 <= m < k ==> key@[m] == s@[from + m],
        decreases n - k,
    {
        if key.get_char(k) != s.get_char(from + k) {
            return false;
        }
        k = k + 1;
    }
    assert(key@ =~= s@.subrange(from as int, to as int).subrange(0, n as int));
    true
}

} // verus!

verus! {

/// A parsed descriptor script.
#[derive(Debug)]
pub struct Descriptor {
    pub source: String,
    pub format: String,
}

/// Fold one line into the running `source` / `format` values: a matching
/// line overwrites the earlier value.
fn scan_line(
    text: &str,
    from: usize,
    to: usize,
    source: &mut Option<String>,
    format: &mut Option<String>,
    Ghost(done): Ghost<Seq<Seq<char>>>,
)
    requires
        from <= to <= text@.len(),
        (match *old(source) { Some(v) => Some(v@), None => None }) == field_value(done, source_key()),
        (match *old(format) { Some(v) => Some(v@), None => None }) == field_value(done, format_key()),
    ensures
        (match *final(source) { Some(v) => Some(v@), None => None }) == field_value(
            done.push(text@.subrange(from as int, to as int)),
            source_key(),
        ),
        (match *final(format) { Some(v) => Some(v@), None => None }) == field_value(
            done.push(text@.subrange(from as int, to as int)),
            format_key(),
        ),
{
    let ghost line = text@.subrange(from as int, to as int);
    proof {
        reveal_strlit("source=");
        reveal_strlit("format=");
        assert("source="@ =~= source_key());
        assert("format="@ =~= format_key());
        assert(done.push(line).drop_last() =~= done);
        assert(done.push(line).last() == line);
    }
    if starts_with_at(text, from, to, "source=") {
        let v = trimmed_range(text, from + 7, to);
        proof {
            assert(line.skip(7) =~= text@.subrange(from + 7, to as int));
        }
        *source = Some(v);
    } else if starts_with_at(text, from, to, "format=") {
        let v = trimmed_range(text, from + 7, to);
        proof {
            assert(line.skip(7) =~= text@.subrange(from + 7, to as int));
        }
        *format = Some(v);
    }
    proof {
        if source_key().is_prefix_of(line) {
            assert(line[0] == 's');
            assert(!format_key().is_prefix_of(line));
        }
    }
}

/// Reads `source` and `format` out of a descriptor script. The last line
/// starting with `source=` (resp. `format=`) gives the value, trimmed; other
/// lines are ignored. Both values must be non-empty.
pub fn parse_script(text: &str) -> (r: Result<Descriptor, InstallError>)
    ensures
        match script_fields(text@) {
            Some((s, f)) => r matches Ok(d) && d.source@ == s && d.format@ == f,
            None => r == Err::<Descriptor, InstallError>(InstallError::InvalidScript),
        },
{
    let n = text.unicode_len();
    let mut source: Option<String> = None;
    let mut format: Option<String> = None;
    let ghost mut done: Seq<Seq<char>> = Seq::empty();
    let mut start: usize = 0;
    let mut k: usize = 0;
    proof {
        assert(text@.take(0) =~= Seq::<char>::empty());
        assert(text@.subrange(0, 0) =~= Seq::<char>::empty());
        assert(split_nl(Seq::<char>::empty()) =~= done.push(Seq::<char>::empty()));
    }
    while k < n
        invariant
            n == text@.len(),
            start <= k <= n,
            split_nl(text@.take(k as int)) == done.push(text@.subrange(start as int, k as int)),
            (match source { Some(v) => Some(v@), None => None }) == field_value(done, source_key()),
            (match format { Some(v) => Some(v@), None => None }) == field_value(done, format_key()),
        decreases n - k,
    {
        let c = text.get_char(k);
        proof {
            let t = text@.take(k + 1);
            assert(t.drop_last() =~= text@.take(k as int));
            assert(t.last() == c);
        }
        if c == '\n' {
            scan_line(text, start, k, &mut source, &mut format, Ghost(done));
            proof {
                done = done.push(text@.subrange(start as int, k as int));
                assert(text@.subrange(k + 1, k + 1) =~= Seq::<char>::empty());
            }
            start = k + 1;
        } else {
            proof {
                let old_lines = done.push(text@.subrange(start as int, k as int));
                assert(text@.subrange(start as int, k + 1) =~= text@.subrange(start as int, k as int).push(c));
                assert(old_lines.update(old_lines.len() - 1, old_lines.last().push(c)) =~= done.push(text@.subrange(start as int, k + 1)));
            }
        }
        k = k + 1;
    }
    scan_line(text, start, n, &mut source, &mut format, Ghost(done));
    proof {
        assert(text@.take(n as int) =~= text@);
    }
    match (source, format) {
        (Some(s), Some(f)) => {
            if s.unicode_len() > 0 && f.unicode_len() > 0 {
                Ok(Descriptor { source: s, format: f })
            } else {
                Err(InstallError::InvalidScript)
            }
        },
        _ => Err(InstallError::InvalidScript),
    }
}

} // verus!

verus! {

/// A key's value comes from the last line that starts with it: whatever
/// earlier lines said, and whatever follows that does not match.
pub proof fn lemma_last_line_wins(lines: Seq<Seq<char>>, key: Seq<char>, i: int)
    requires
        0 <= i < lines.len(),
        key.is_prefix_of(lines[i]),
        forall|j: int| i < j < lines.len() ==> !key.is_prefix_of(#[trigger] lines[j]),
    ensures
        field_value(lines, key) == Some(trim(lines[i].skip(key.len() as int))),
    decreases lines.len(),
{
    if i < lines.len() - 1 {
        let init = lines.drop_last();
        assert(!key.is_prefix_of(lines[lines.len() - 1]));
        assert forall|j: int| i < j < init.len() implies !key.is_prefix_of(#[trigger] init[j]) by {
            assert(init[j] == lines[j]);
        }
        lemma_last_line_wins(init, key, i);
    }
}

/// Without a line that starts with the key there is no value.
pub proof fn lemma_no_line_no_value(lines: Seq<Seq<char>>, key: Seq<char>)
    requires
        forall|j: int| 0 <= j < lines.len() ==> !key.is_prefix_of(#[trigger] lines[j]),
    ensures
        field_value(lines, key) is None,
    decreases lines.len(),
{
    if lines.len() > 0 {
        let init = lines.drop_last();
        assert(!key.is_prefix_of(lines[lines.len() - 1]));
        assert forall|j: int| 0 <= j < init.len() implies !key.is_prefix_of(#[trigger] init[j]) by {
            assert(init[j] == lines[j]);
        }
        lemma_no_line_no_value(init, key);
    }
}

/// A script in which no line starts with `source=`, or none with `format=`,
/// is invalid.
pub proof fn lemma_missing_key_invalid(text: Seq<char>)
    requires
        (forall|j: int|
            0 <= j < split_nl(text).len() ==> !source_key().is_prefix_of(#[trigger] split_nl(text)[j]))
            || (forall|j: int|
            0 <= j < split_nl(text).len() ==> !format_key().is_prefix_of(#[trigger] split_nl(text)[j])),
    ensures
        script_fields(text) is None,
{
    if forall|j: int|
        0 <= j < split_nl(text).len() ==> !source_key().is_prefix_of(#[trigger] split_nl(text)[j]) {
        lemma_no_line_no_value(split_nl(text), source_key());
    } else {
        lemma_no_line_no_value(split_nl(text), format_key());
    }
}

} // verus!
