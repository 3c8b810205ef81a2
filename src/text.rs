use vstd::prelude::*;

verus! {

/// Size, in UTF-16 units, of the buffers that titles and executable paths are
/// read into; longer texts arrive truncated.
pub const TEXT_CAPACITY: usize = 512;

/// What decoding UTF-16 units with replacement of invalid sequences yields.
pub uninterp spec fn utf16_lossy(units: Seq<u16>) -> Seq<char>;

/// Relies on `String::from_utf16_lossy`: the decoded text depends on the
/// units alone, and an empty slice decodes to the empty text.
#[verifier::external_body]
fn decode_utf16_lossy(units: &Vec<u16>) -> (r: String)
    ensures
        r@ == utf16_lossy(units@),
        units@.len() == 0 ==> r@.len() == 0,
{
    String::from_utf16_lossy(units.as_slice())
}

/// The units that a read reported as filled: the first `length` of the
/// buffer, none when the reported length is not positive.
pub open spec fn received_units(buffer: Seq<u16>, length: int) -> Seq<u16> {
    if length <= 0 {
        Seq::empty()
    } else if length >= buffer.len() {
        buffer
    } else {
        buffer.take(length)
    }
}

/// The text of a caption read into `buffer`, of which `length` units were filled.
pub open spec fn title_of(buffer: Seq<u16>, length: int) -> Seq<char> {
    let units = received_units(buffer, length);
    if units.len() == 0 {
        Seq::empty()
    } else {
        utf16_lossy(units)
    }
}

/// Copies the filled part of a buffer.
fn take_received(buffer: &Vec<u16>, length: usize) -> (r: Vec<u16>)
    ensures
        r@ == received_units(buffer@, length as int),
{
    let n: usize = if length < buffer.len() { length } else { buffer.len() };
    let mut r: Vec<u16> = Vec::with_capacity(n);
    let mut i: usize = 0;
    while i < n
        invariant
            n <= buffer.len(),
            n == length || n == buffer.len(),
            n < buffer.len() ==> n == length,
            i <= n,
            r@ == buffer@.take(i as int),
        decreases n - i,
    {
        r.push(buffer[i]);
        i = i + 1;
        assert(r@ =~= buffer@.take(i as int));
    }
    assert(r@ =~= received_units(buffer@, length as int));
    r
}

/// Decodes the caption that the environment wrote into `buffer`, given the
/// number of units it reported; a non-positive count gives the empty title.
pub fn window_title(buffer: &Vec<u16>, length: i32) -> (r: String)
    ensures
        r@ == title_of(buffer@, length as int),
{
    if length <= 0 {
        return String::new();
    }
    let units = take_received(buffer, length as usize);
    if units.len() == 0 {
        return String::new();
    }
    decode_utf16_lossy(&units)
}

/// A directory separator of a Windows path.
pub open spec fn is_separator(u: u16) -> bool {
    u == 0x5C || u == 0x2F
}

/// The dot that introduces an extension.
pub open spec fn is_dot(u: u16) -> bool {
    u == 0x2E
}

/// Index of the last separator of `s`, or -1 where it has none.
pub open spec fn last_separator(s: Seq<u16>) -> int
    decreases s.len(),
{
    if s.len() == 0 {
        -1
    } else if is_separator(s.last()) {
        s.len() - 1
    } else {
        last_separator(s.drop_last())
    }
}

/// Index of the last dot of `s`, or -1 where it has none.
pub open spec fn last_dot(s: Seq<u16>) -> int
    decreases s.len(),
{
    if s.len() == 0 {
        -1
    } else if is_dot(s.last()) {
        s.len() - 1
    } else {
        last_dot(s.drop_last())
    }
}

/// The file-name component of a path: what follows its last separator.
pub open spec fn file_name_units(path: Seq<u16>) -> Seq<u16> {
    path.subrange(last_separator(path) + 1, path.len() as int)
}

/// The file name `.` or `..`, which names a directory and has no stem.
pub open spec fn is_dot_name(name: Seq<u16>) -> bool {
    (name.len() == 1 && is_dot(name[0])) || (name.len() == 2 && is_dot(name[0]) && is_dot(
        name[1],
    ))
}

/// The stem of a file name: the name up to its last dot, or the whole name
/// where it has no dot but possibly a leading one; empty for `.` and `..`.
pub open spec fn stem_units(name: Seq<u16>) -> Seq<u16> {
    if is_dot_name(name) {
        Seq::empty()
    } else if last_dot(name) <= 0 {
        name
    } else {
        name.take(last_dot(name))
    }
}

/// The executable stem of a path read into `buffer`, of which `length` units
/// were filled; empty where the path has no stem.
pub open spec fn executable_stem_of(buffer: Seq<u16>, length: int) -> Seq<char> {
    let stem = stem_units(file_name_units(received_units(buffer, length)));
    if stem.len() == 0 {
        Seq::empty()
    } else {
        utf16_lossy(stem)
    }
}

/// The file-name component of `path`.
fn file_name_of(path: &Vec<u16>) -> (r: Vec<u16>)
    ensures
        r@ == file_name_units(path@),
{
    let mut start: usize = 0;
    let mut i: usize = 0;
    while i < path.len()
        invariant
            i <= path.len(),
            start <= i,
            start as int == last_separator(path@.take(i as int)) + 1,
        decreases path.len() - i,
    {
        assert(path@.take(i as int + 1).drop_last() =~= path@.take(i as int));
        if path[i] == 0x5C || path[i] == 0x2F {
            start = i + 1;
        }
        i = i + 1;
    }
    assert(path@.take(path.len() as int) =~= path@);
    let mut r: Vec<u16> = Vec::new();
    let mut j: usize = start;
    while j < path.len()
        invariant
            start <= j <= path.len(),
            r@ == path@.subrange(start as int, j as int),
        decreases path.len() - j,
    {
        r.push(path[j]);
        j = j + 1;
        assert(r@ =~= path@.subrange(start as int, j as int));
    }
    r
}

/// The stem of the file name `name`.
fn stem_of(name: &Vec<u16>) -> (r: Vec<u16>)
    ensures
        r@ == stem_units(name@),
{
    let n: usize = name.len();
    if (n == 1 && name[0] == 0x2E) || (n == 2 && name[0] == 0x2E && name[1] == 0x2E) {
        return Vec::new();
    }
    let mut dot: usize = 0;
    let mut found: bool = false;
    let mut i: usize = 0;
    while i < n
        invariant
            n == name.len(),
            i <= n,
            found ==> dot < i && last_dot(name@.take(i as int)) == dot as int,
            !found ==> last_dot(name@.take(i as int)) == -1,
        decreases n - i,
    {
        assert(name@.take(i as int + 1).drop_last() =~= name@.take(i as int));
        if name[i] == 0x2E {
            dot = i;
            found = true;
        }
        i = i + 1;
    }
    assert(name@.take(n as int) =~= name@);
    if !found || dot == 0 {
        return name.clone();
    }
    take_received(name, dot)
}

/// Reduces an executable path that the environment wrote into `buffer`, of
/// which `length` units were filled, to the file name without its extension.
pub fn executable_stem(buffer: &Vec<u16>, length: u32) -> (r: String)
    ensures
        r@ == executable_stem_of(buffer@, length as int),
{
    let path = take_received(buffer, length as usize);
    let name = file_name_of(&path);
    let stem = stem_of(&name);
    if stem.len() == 0 {
        return String::new();
    }
    decode_utf16_lossy(&stem)
}

} // verus!
