//! An in-memory reader: a byte slice with a read position.

use std::io::Cursor;
use vstd::prelude::*;

verus! {

#[verifier::external_type_specification]
#[verifier::external_body]
#[verifier::reject_recursive_types(T)]
pub struct ExCursor<T>(Cursor<T>);

/// The bytes that a cursor reads from (`Cursor::get_ref`).
pub uninterp spec fn cursor_data(c: Cursor<&[u8]>) -> Seq<u8>;

/// The read position of a cursor (`Cursor::position`).
pub uninterp spec fn cursor_pos(c: Cursor<&[u8]>) -> u64;

/// The bytes that are left to read: everything from the position on.
pub open spec fn unread(c: Cursor<&[u8]>) -> Seq<u8> {
    let d = cursor_data(c);
    if cursor_pos(c) >= d.len() {
        Seq::empty()
    } else {
        d.skip(cursor_pos(c) as int)
    }
}

/// `Cursor::new`: a cursor over `data`, positioned at its start.
#[verifier::external_body]
pub(crate) fn cursor_new<'a>(data: &'a [u8]) -> (c: Cursor<&'a [u8]>)
    ensures
        cursor_data(c) == data@,
        cursor_pos(c) == 0,
{
    Cursor::new(data)
}

/// `Cursor::get_ref`: the slice the cursor reads from.
#[verifier::external_body]
pub(crate) fn cursor_get_ref<'a>(c: &Cursor<&'a [u8]>) -> (r: &'a [u8])
    ensures
        r@ == cursor_data(*c),
{
    c.get_ref()
}

/// `Cursor::position`: the current read position.
#[verifier::external_body]
pub(crate) fn cursor_position(c: &Cursor<&[u8]>) -> (p: u64)
    ensures
        p == cursor_pos(*c),
{
    c.position()
}

/// `Cursor::set_position`: moves the read position, keeping the data.
#[verifier::external_body]
pub(crate) fn cursor_set_position(c: &mut Cursor<&[u8]>, p: u64)
    ensures
        cursor_data(*final(c)) == cursor_data(*old(c)),
        cursor_pos(*final(c)) == p,
{
    c.set_position(p)
}

/// The number of bytes left to read.
pub fn remaining(c: &Cursor<&[u8]>) -> (n: usize)
    ensures
        n == unread(*c).len(),
{
    let data = cursor_get_ref(c);
    let pos = cursor_position(c);
    if pos >= data.len() as u64 {
        0
    } else {
        data.len() - pos as usize
    }
}

/// Reads one byte, advancing the position; fails with end of input when
/// nothing is left.
pub fn read_byte(c: &mut Cursor<&[u8]>) -> (r: Option<u8>)
    ensures
        cursor_data(*final(c)) == cursor_data(*old(c)),
        unread(*old(c)).len() == 0 ==> r is None && unread(*final(c)) == unread(*old(c))
            && cursor_pos(*final(c)) == cursor_pos(*old(c)),
        unread(*old(c)).len() > 0 ==> r == Some(unread(*old(c))[0]) && unread(*final(c))
            == unread(*old(c)).drop_first() && cursor_pos(*final(c)) == cursor_pos(*old(c)) + 1
            && cursor_pos(*final(c)) <= cursor_data(*final(c)).len(),
{
    let data = cursor_get_ref(c);
    let pos = cursor_position(c);
    if pos >= data.len() as u64 {
        None
    } else {
        let b = data[pos as usize];
        cursor_set_position(c, pos + 1);
        proof {
            let d = cursor_data(*old(c));
            assert(d.skip(pos + 1) =~= d.skip(pos as int).drop_first());
        }
        Some(b)
    }
}

} // verus!
