//! Open files, as far as the kernel computes on them: how a file was
//! opened, and where a seek leads.

use crate::num::{add_signed, signed64, wrap64};
use vstd::prelude::*;

verus! {

/// How a file was opened.
#[derive(Clone, Copy, Debug, PartialEq, Eq, Structural)]
pub struct OpenOptions {
    /// The file can be read.
    pub read: bool,
    /// The file can be written.
    pub write: bool,
    /// Before each write, the file offset is positioned at the end of the
    /// file.
    pub append: bool,
}

/// Where to seek: so far from the start, from the end, or from the current
/// offset.
#[derive(Clone, Copy, Debug, PartialEq, Eq, Structural)]
pub enum SeekFrom {
    /// From the start of the file.
    Start(u64),
    /// From the end of the file.
    End(i64),
    /// From the current offset.
    Current(i64),
}

impl SeekFrom {
    /// The offset to which a seek leads, in a file of size `size` with the
    /// current offset `current`.
    pub open spec fn spec_target(self, current: u64, size: u64) -> u64 {
        match self {
            SeekFrom::Start(offset) => offset,
            SeekFrom::End(offset) => wrap64(signed64(size as int) + offset),
            SeekFrom::Current(offset) => wrap64(signed64(current as int) + offset),
        }
    }

    /// The offset to which a seek leads, in a file of size `size` with the
    /// current offset `current`. Sizes and offsets are read as signed
    /// numbers, and the sum must be one.
    pub fn target(self, current: u64, size: u64) -> (offset: u64)
        requires
            self matches SeekFrom::End(delta) ==> -0x8000_0000_0000_0000 <= signed64(size as int)
                + delta < 0x8000_0000_0000_0000,
            self matches SeekFrom::Current(delta) ==> -0x8000_0000_0000_0000 <= signed64(
                current as int,
            ) + delta < 0x8000_0000_0000_0000,
        ensures
            offset == self.spec_target(current, size),
    {
        match self {
            SeekFrom::Start(offset) => offset,
            SeekFrom::End(offset) => add_signed(size, offset),
            SeekFrom::Current(offset) => add_signed(current, offset),
        }
    }
}

/// The byte that parts the names of a path.
pub const SLASH: u8 = 0x2f;

/// The byte that names the directory itself.
pub const DOT: u8 = 0x2e;

/// A path without the slashes at its end.
pub open spec fn trimmed(path: Seq<u8>) -> Seq<u8>
    decreases path.len(),
{
    if path.len() > 0 && path.last() == SLASH {
        trimmed(path.drop_last())
    } else {
        path
    }
}

/// Where the last slash of a path is, or -1 for a path without one.
pub open spec fn last_slash(path: Seq<u8>) -> int
    decreases path.len(),
{
    if path.len() == 0 {
        -1
    } else if path.last() == SLASH {
        path.len() - 1
    } else {
        last_slash(path.drop_last())
    }
}

/// The directory of a path: what stands before the last slash of the
/// trimmed path; the root where that is nothing; and the directory itself
/// where the trimmed path has no slash.
pub open spec fn dir_of(path: Seq<u8>) -> Seq<u8> {
    let path = trimmed(path);
    let slash = last_slash(path);
    if slash < 0 {
        seq![DOT]
    } else if slash == 0 {
        seq![SLASH]
    } else {
        path.subrange(0, slash)
    }
}

/// The file name of a path: what stands after the last slash of the trimmed
/// path, or all of it where it has no slash.
pub open spec fn file_of(path: Seq<u8>) -> Seq<u8> {
    let path = trimmed(path);
    path.subrange(last_slash(path) + 1, path.len() as int)
}

/// The bytes of `path` from `from` up to `to`.
fn copy_range(path: &[u8], from: usize, to: usize) -> (bytes: Vec<u8>)
    requires
        from <= to <= path@.len(),
    ensures
        bytes@ == path@.subrange(from as int, to as int),
{
    let mut bytes: Vec<u8> = Vec::new();
    let mut i: usize = from;
    while i < to
        invariant
            from <= i <= to <= path@.len(),
            bytes@ == path@.subrange(from as int, i as int),
        decreases to - i,
    {
        bytes.push(path[i]);
        assert(path@.subrange(from as int, i + 1) =~= path@.subrange(from as int, i as int).push(
            path@[i as int],
        ));
        i = i + 1;
    }
    bytes
}

/// Splits a path into the path of its directory and its file name.
pub fn split_path(path: &[u8]) -> (parts: (Vec<u8>, Vec<u8>))
    ensures
        parts.0@ == dir_of(path@),
        parts.1@ == file_of(path@),
{
    let mut end: usize = path.len();
    assert(path@.subrange(0, end as int) =~= path@);
    while end > 0 && path[end - 1] == SLASH
        invariant
            end <= path@.len(),
            trimmed(path@) == trimmed(path@.subrange(0, end as int)),
        decreases end,
    {
        assert(path@.subrange(0, end as int).drop_last() =~= path@.subrange(0, end - 1));
        end = end - 1;
    }
    let ghost kept = path@.subrange(0, end as int);
    assert(trimmed(path@) == kept);
    let mut start: usize = end;
    assert(kept.subrange(0, start as int) =~= kept);
    while start > 0 && path[start - 1] != SLASH
        invariant
            start <= end <= path@.len(),
            kept == path@.subrange(0, end as int),
            last_slash(kept) == last_slash(kept.subrange(0, start as int)),
        decreases start,
    {
        assert(kept.subrange(0, start as int).drop_last() =~= kept.subrange(0, start - 1));
        start = start - 1;
    }
    assert(last_slash(kept) == start - 1);
    let file_name: Vec<u8> = copy_range(path, start, end);
    assert(path@.subrange(start as int, end as int) =~= kept.subrange(start as int, end as int));
    let dir_path: Vec<u8> = if start == 0 {
        let mut dir: Vec<u8> = Vec::new();
        dir.push(DOT);
        assert(dir@ =~= seq![DOT]);
        dir
    } else if start == 1 {
        let mut dir: Vec<u8> = Vec::new();
        dir.push(SLASH);
        assert(dir@ =~= seq![SLASH]);
        dir
    } else {
        assert(path@.subrange(0, start - 1) =~= kept.subrange(0, start - 1));
        copy_range(path, 0, start - 1)
    };
    (dir_path, file_name)
}

} // verus!
