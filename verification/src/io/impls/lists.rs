//! Lists and optional values.

use crate::cursor::{cursor_data, cursor_get_ref, cursor_set_position, unread};
use crate::error::IoError;
use crate::io::args::{ListArgs, ListLength, OptionArgs, OptionTag};
use crate::io::ext::{
    ext_var_i32_bytes, lemma_ext_var_i32_roundtrip, lemma_var_decode_len, var_len_decode, ReadMinecraftExt, WriteMinecraftExt,
};
use crate::io::mc::{read_outcome, write_outcome, McRead, McWrite};
use std::io::Cursor;
use vstd::prelude::*;

verus! {

/// A read's outcome moved past `p` bytes that were read before it.
pub open spec fn shifted<V>(r: Result<(V, nat), IoError>, p: nat) -> Result<(V, nat), IoError> {
    match r {
        Ok((v, n)) => Ok((v, n + p)),
        Err(e) => Err(e),
    }
}

/// Reading `count` values one after another: the values in order and the
/// bytes they take, or the first error.
pub open spec fn read_n<T: McRead>(args: T::Args, count: nat, s: Seq<u8>) -> Result<
    (Seq<T::V>, nat),
    IoError,
>
    decreases count,
{
    if count == 0 {
        Ok((Seq::empty(), 0))
    } else {
        match read_n::<T>(args, (count - 1) as nat, s) {
            Err(e) => Err(e),
            Ok((vs, c)) => match T::spec_read(args, s.skip(c as int)) {
                Err(e) => Err(e),
                Ok((v, n)) => Ok((vs.push(v), c + n)),
            },
        }
    }
}

/// Reading values until the input runs out: a value cut short by the end of
/// the input ends the list, and the whole input is then taken. Another error
/// is returned as it is. (The last branch, a read that takes no bytes, does
/// not arise with arguments that promise progress.)
pub open spec fn read_rest<T: McRead>(args: T::Args, s: Seq<u8>) -> Result<
    (Seq<T::V>, nat),
    IoError,
>
    decreases s.len(),
{
    match T::spec_read(args, s) {
        Err(e) => if e == IoError::UnexpectedEof {
            Ok((Seq::empty(), s.len()))
        } else {
            Err(e)
        },
        Ok((v, n)) => if 0 < n && n <= s.len() {
            match read_rest::<T>(args, s.skip(n as int)) {
                Ok((vs, m)) => Ok((seq![v] + vs, n + m)),
                Err(e) => Err(e),
            }
        } else {
            Err(IoError::InvalidData)
        },
    }
}

/// Reading a list: its length as a VarInt or a byte (a negative byte is
/// invalid), then that many values; or values up to the end of the input.
pub open spec fn list_read<T: McRead>(args: ListArgs<T::Args>, s: Seq<u8>) -> Result<
    (Seq<T::V>, nat),
    IoError,
> {
    match args.length {
        ListLength::VarInt => match var_len_decode(s) {
            Err(e) => Err(e),
            Ok((len, p)) => shifted(read_n::<T>(args.inner, len, s.skip(p as int)), p),
        },
        ListLength::Byte => if s.len() < 1 {
            Err(IoError::UnexpectedEof)
        } else if (s[0] as i8) < 0 {
            Err(IoError::InvalidData)
        } else {
            shifted(read_n::<T>(args.inner, (s[0] as i8) as nat, s.skip(1)), 1)
        },
        ListLength::Remaining => read_rest::<T>(args.inner, s),
    }
}

/// Writing values one after another: their bytes in order, or the first
/// error.
pub open spec fn write_all<T: McWrite>(args: T::Args, vs: Seq<T::V>) -> Result<Seq<u8>, IoError>
    decreases vs.len(),
{
    if vs.len() == 0 {
        Ok(Seq::empty())
    } else {
        match write_all::<T>(args, vs.drop_last()) {
            Err(e) => Err(e),
            Ok(bs) => match T::spec_write(vs.last(), args) {
                Err(e) => Err(e),
                Ok(b) => Ok(bs + b),
            },
        }
    }
}

/// Bytes written after a prefix.
pub open spec fn prefixed(p: Seq<u8>, r: Result<Seq<u8>, IoError>) -> Result<Seq<u8>, IoError> {
    match r {
        Ok(b) => Ok(p + b),
        Err(e) => Err(e),
    }
}

/// Writing a list: its length (as a VarInt, at most `i32::MAX`; or as a
/// byte, at most 127; or not at all), then its values.
pub open spec fn list_write<T: McWrite>(args: ListArgs<T::Args>, vs: Seq<T::V>) -> Result<
    Seq<u8>,
    IoError,
> {
    match args.length {
        ListLength::VarInt => if vs.len() > i32::MAX {
            Err(IoError::InvalidData)
        } else {
            prefixed(ext_var_i32_bytes(vs.len() as i32), write_all::<T>(args.inner, vs))
        },
        ListLength::Byte => if vs.len() > 127 {
            Err(IoError::InvalidData)
        } else {
            prefixed(seq![vs.len() as u8], write_all::<T>(args.inner, vs))
        },
        ListLength::Remaining => write_all::<T>(args.inner, vs),
    }
}

/// Reading values takes no more than the input.
proof fn lemma_read_n_len<T: McRead>(args: T::Args, count: nat, s: Seq<u8>)
    ensures
        read_n::<T>(args, count, s) matches Ok((vs, c)) ==> c <= s.len() && vs.len() == count,
    decreases count,
{
    if count > 0 {
        lemma_read_n_len::<T>(args, (count - 1) as nat, s);
        if let Ok((vs, c)) = read_n::<T>(args, (count - 1) as nat, s) {
            T::lemma_read_len(args, s.skip(c as int));
        }
    }
}

/// Reading up to the end of the input takes all of it.
proof fn lemma_read_rest_len<T: McRead>(args: T::Args, s: Seq<u8>)
    ensures
        read_rest::<T>(args, s) matches Ok((vs, c)) ==> c == s.len(),
    decreases s.len(),
{
    if let Ok((v, n)) = T::spec_read(args, s) {
        if 0 < n && n <= s.len() {
            lemma_read_rest_len::<T>(args, s.skip(n as int));
        }
    }
}

/// A failed read of the first values fails the read of more of them.
proof fn lemma_read_n_err<T: McRead>(args: T::Args, i: nat, count: nat, s: Seq<u8>)
    requires
        i <= count,
        read_n::<T>(args, i, s) is Err,
    ensures
        read_n::<T>(args, count, s) == read_n::<T>(args, i, s),
    decreases count,
{
    if i < count {
        lemma_read_n_err::<T>(args, i, (count - 1) as nat, s);
    }
}

/// A failed write of the first values fails the write of all of them.
proof fn lemma_write_all_err<T: McWrite>(args: T::Args, vs: Seq<T::V>, j: int)
    requires
        0 <= j <= vs.len(),
        write_all::<T>(args, vs.take(j)) is Err,
    ensures
        write_all::<T>(args, vs) == write_all::<T>(args, vs.take(j)),
    decreases vs.len(),
{
    if j == vs.len() {
        assert(vs.take(j) =~= vs);
    } else {
        assert(vs.drop_last().take(j) =~= vs.take(j));
        lemma_write_all_err::<T>(args, vs.drop_last(), j);
    }
}

/// Reads `count` values after the first `p` bytes of `s`, which were taken
/// already.
fn read_count<T: McRead>(
    reader: &mut Cursor<&[u8]>,
    args: &T::Args,
    count: usize,
    Ghost(s): Ghost<Seq<u8>>,
    Ghost(p): Ghost<nat>,
) -> (r: Result<Vec<T>, IoError>)
    requires
        T::read_ok(*args),
        p <= s.len(),
        unread(*old(reader)) == s.skip(p as int),
    ensures
        read_outcome(s, unread(*final(reader)), shifted(read_n::<T>(*args, count as nat, s.skip(p as int)), p), r),
{
    let ghost s0 = s.skip(p as int);
    let mut result: Vec<T> = Vec::new();
    let ghost mut c: nat = 0;
    let mut i: usize = 0;
    assert(s0.skip(0) =~= s0);
    assert(result.deep_view() =~= Seq::<T::V>::empty());
    while i < count
        invariant
            T::read_ok(*args),
            p <= s.len(),
            s0 == s.skip(p as int),
            i <= count,
            c <= s0.len(),
            read_n::<T>(*args, i as nat, s0) == Ok::<(Seq<T::V>, nat), IoError>((result.deep_view(), c)),
            unread(*reader) == s0.skip(c as int),
        decreases count - i,
    {
        let ghost cur = unread(*reader);
        proof {
            T::lemma_read_len(*args, cur);
        }
        match T::read(reader, args) {
            Ok(v) => {
                let ghost n = (cur.len() - unread(*reader).len()) as nat;
                proof {
                    assert(s0.skip(c as int).skip(n as int) =~= s0.skip((c + n) as int));
                }
                result.push(v);
                proof {
                    c = c + n;
                    assert(result.deep_view() =~= read_n::<T>(*args, (i + 1) as nat, s0)->Ok_0.0);
                }
                i = i + 1;
            },
            Err(e) => {
                proof {
                    lemma_read_n_err::<T>(*args, (i + 1) as nat, count as nat, s0);
                }
                return Err(e);
            },
        }
    }
    proof {
        assert(s.skip((p + c) as int) =~= s0.skip(c as int));
    }
    Ok(result)
}

/// Reads values until the input runs out; on the end of the input the
/// reader is left at its end.
fn read_until_end<T: McRead>(reader: &mut Cursor<&[u8]>, args: &T::Args) -> (r: Result<
    Vec<T>,
    IoError,
>)
    requires
        T::read_ok(*args),
        T::progresses(*args),
    ensures
        read_outcome(unread(*old(reader)), unread(*final(reader)), read_rest::<T>(*args, unread(*old(reader))), r),
{
    let ghost s0 = unread(*reader);
    let mut result: Vec<T> = Vec::new();
    let ghost mut c: nat = 0;
    assert(s0.skip(0) =~= s0);
    assert(result.deep_view() =~= Seq::<T::V>::empty());
    proof {
        match read_rest::<T>(*args, s0) {
            Ok((vs, m)) => {
                assert(result.deep_view() + vs =~= vs);
            },
            Err(_) => {},
        }
    }
    loop
        invariant
            T::read_ok(*args),
            T::progresses(*args),
            s0 == unread(*old(reader)),
            c <= s0.len(),
            unread(*reader) == s0.skip(c as int),
            read_rest::<T>(*args, s0) == match read_rest::<T>(*args, s0.skip(c as int)) {
                Ok((vs, m)) => Ok::<(Seq<T::V>, nat), IoError>((result.deep_view() + vs, c + m)),
                Err(e) => Err(e),
            },
        decreases s0.len() - c,
    {
        let ghost cur = unread(*reader);
        proof {
            T::lemma_read_len(*args, cur);
        }
        match T::read(reader, args) {
            Ok(v) => {
                let ghost n = (cur.len() - unread(*reader).len()) as nat;
                let ghost before = result.deep_view();
                proof {
                    assert(s0.skip(c as int).skip(n as int) =~= s0.skip((c + n) as int));
                }
                result.push(v);
                proof {
                    assert(result.deep_view() =~= before.push(v.deep_view()));
                    match read_rest::<T>(*args, s0.skip((c + n) as int)) {
                        Ok((vs, m)) => {
                            assert(before + (seq![v.deep_view()] + vs) =~= result.deep_view() + vs);
                        },
                        Err(_) => {},
                    }
                    c = c + n;
                }
            },
            Err(e) => {
                assert(T::spec_read(*args, cur) == Err::<(T::V, nat), IoError>(e));
                if e == IoError::UnexpectedEof {
                    assert(read_rest::<T>(*args, cur) == Ok::<(Seq<T::V>, nat), IoError>((Seq::<T::V>::empty(), cur.len())));
                    let data = cursor_get_ref(reader);
                    cursor_set_position(reader, data.len() as u64);
                    proof {
                        assert(result.deep_view() + Seq::<T::V>::empty() =~= result.deep_view());
                        assert(s0.skip(s0.len() as int) =~= Seq::<u8>::empty());
                        assert(cursor_data(*reader).len() == data@.len());
                    }
                    return Ok(result);
                }
                return Err(e);
            },
        }
    }
}

impl<T: McRead> McRead for Vec<T> {
    type Args = ListArgs<T::Args>;

    open spec fn spec_read(args: ListArgs<T::Args>, input: Seq<u8>) -> Result<(Seq<T::V>, nat), IoError> {
        list_read::<T>(args, input)
    }

    /// Reading up to the end of the input needs reads that take at least
    /// one byte each.
    open spec fn read_ok(args: ListArgs<T::Args>) -> bool {
        T::read_ok(args.inner) && (args.length == ListLength::Remaining ==> T::progresses(
            args.inner,
        ))
    }

    open spec fn progresses(args: ListArgs<T::Args>) -> bool {
        args.length != ListLength::Remaining
    }

    proof fn lemma_read_len(args: ListArgs<T::Args>, input: Seq<u8>) {
        match args.length {
            ListLength::VarInt => {
                lemma_var_decode_len(input, 5, 5);
                if let Ok((len, p)) = var_len_decode(input) {
                    lemma_read_n_len::<T>(args.inner, len, input.skip(p as int));
                }
            },
            ListLength::Byte => {
                if input.len() >= 1 && (input[0] as i8) >= 0 {
                    lemma_read_n_len::<T>(args.inner, (input[0] as i8) as nat, input.skip(1));
                }
            },
            ListLength::Remaining => {
                lemma_read_rest_len::<T>(args.inner, input);
            },
        }
    }

    fn read(reader: &mut Cursor<&[u8]>, args: &ListArgs<T::Args>) -> (r: Result<Vec<T>, IoError>) {
        let ghost s = unread(*reader);
        match args.length {
            ListLength::VarInt => {
                proof {
                    lemma_var_decode_len(s, 5, 5);
                }
                let len = reader.read_var_i32_len()?;
                let ghost p = (s.len() - unread(*reader).len()) as nat;
                read_count(reader, &args.inner, len, Ghost(s), Ghost(p))
            },
            ListLength::Byte => {
                let len = reader.read_i8()?;
                if len < 0 {
                    return Err(IoError::InvalidData);
                }
                assert(s.skip(1) == unread(*reader));
                read_count(reader, &args.inner, len as usize, Ghost(s), Ghost(1))
            },
            ListLength::Remaining => read_until_end(reader, &args.inner),
        }
    }
}

impl<T: McWrite> McWrite for Vec<T> {
    type Args = ListArgs<T::Args>;

    open spec fn spec_write(v: Seq<T::V>, args: ListArgs<T::Args>) -> Result<Seq<u8>, IoError> {
        list_write::<T>(args, v)
    }

    fn write(&self, writer: &mut Vec<u8>, args: &ListArgs<T::Args>) -> (r: Result<(), IoError>) {
        let ghost start = writer@;
        match args.length {
            ListLength::VarInt => {
                if let Err(e) = writer.write_var_i32_len(self.len()) {
                    return Err(e);
                }
            },
            ListLength::Byte => {
                if self.len() > 127 {
                    return Err(IoError::InvalidData);
                }
                writer.write_i8(self.len() as i8)?;
                assert(seq![(self.len() as i8) as u8] =~= seq![self.deep_view().len() as u8]);
            },
            ListLength::Remaining => {},
        }
        let ghost prefix = writer@.skip(start.len() as int);
        assert(writer@ =~= start + prefix);
        proof {
            match args.length {
                ListLength::VarInt => assert(prefix =~= ext_var_i32_bytes(self.len() as i32)),
                ListLength::Byte => assert(prefix =~= seq![self.len() as u8]),
                ListLength::Remaining => assert(prefix =~= Seq::<u8>::empty()),
            }
        }
        let ghost vs = self.deep_view();
        let mut i: usize = 0;
        assert(vs.take(0) =~= Seq::<T::V>::empty());
        assert(prefix + Seq::<u8>::empty() =~= prefix);
        while i < self.len()
            invariant
                vs == self.deep_view(),
                list_write::<T>(*args, vs) == prefixed(prefix, write_all::<T>(args.inner, vs)),
                i <= self.len(),
                write_all::<T>(args.inner, vs.take(i as int)) matches Ok(b) && writer@ == start + prefix + b,
            decreases self.len() - i,
        {
            let ghost before = writer@;
            let ghost b = write_all::<T>(args.inner, vs.take(i as int))->Ok_0;
            assert(vs.take((i + 1) as int).drop_last() =~= vs.take(i as int));
            assert(vs.take((i + 1) as int).last() == self[i as int].deep_view());
            match self[i].write(writer, &args.inner) {
                Ok(()) => {
                    proof {
                        let w = T::spec_write(vs[i as int], args.inner)->Ok_0;
                        assert(writer@ =~= start + prefix + (b + w));
                    }
                },
                Err(e) => {
                    proof {
                        assert(write_all::<T>(args.inner, vs.take((i + 1) as int)) == Err::<Seq<u8>, IoError>(e));
                        lemma_write_all_err::<T>(args.inner, vs, (i + 1) as int);
                    }
                    return Err(e);
                },
            }
            i = i + 1;
        }
        assert(vs.take(i as int) =~= vs);
        proof {
            let b = write_all::<T>(args.inner, vs)->Ok_0;
            assert(start + prefix + b =~= start + (prefix + b));
        }
        Ok(())
    }
}

/// Reading an optional value: after a boolean byte (a value follows when it
/// is nonzero), or as whatever the input still holds (nothing when a value
/// is cut short by the end of the input, which is then taken whole).
pub open spec fn option_read<T: McRead>(args: OptionArgs<T::Args>, s: Seq<u8>) -> Result<
    (Option<T::V>, nat),
    IoError,
> {
    match args.tag {
        OptionTag::Bool => if s.len() < 1 {
            Err(IoError::UnexpectedEof)
        } else if s[0] != 0 {
            match T::spec_read(args.inner, s.skip(1)) {
                Ok((v, n)) => Ok((Some(v), n + 1)),
                Err(e) => Err(e),
            }
        } else {
            Ok((None, 1))
        },
        OptionTag::Remaining => match T::spec_read(args.inner, s) {
            Ok((v, n)) => Ok((Some(v), n)),
            Err(e) => if e == IoError::UnexpectedEof {
                Ok((None, s.len()))
            } else {
                Err(e)
            },
        },
    }
}

/// Writing an optional value: a boolean byte for its presence (with the
/// `Bool` tag), then the value if there is one.
pub open spec fn option_write<T: McWrite>(args: OptionArgs<T::Args>, v: Option<T::V>) -> Result<
    Seq<u8>,
    IoError,
> {
    let p = match args.tag {
        OptionTag::Bool => seq![
            if v is Some {
                1u8
            } else {
                0u8
            },
        ],
        OptionTag::Remaining => Seq::empty(),
    };
    match v {
        None => Ok(p),
        Some(x) => prefixed(p, T::spec_write(x, args.inner)),
    }
}

impl<T: McRead> McRead for Option<T> {
    type Args = OptionArgs<T::Args>;

    open spec fn spec_read(args: OptionArgs<T::Args>, input: Seq<u8>) -> Result<(Option<T::V>, nat), IoError> {
        option_read::<T>(args, input)
    }

    open spec fn read_ok(args: OptionArgs<T::Args>) -> bool {
        T::read_ok(args.inner)
    }

    open spec fn progresses(args: OptionArgs<T::Args>) -> bool {
        args.tag == OptionTag::Bool
    }

    proof fn lemma_read_len(args: OptionArgs<T::Args>, input: Seq<u8>) {
        T::lemma_read_len(args.inner, input);
        if input.len() >= 1 {
            T::lemma_read_len(args.inner, input.skip(1));
        }
    }

    fn read(reader: &mut Cursor<&[u8]>, args: &OptionArgs<T::Args>) -> (r: Result<Option<T>, IoError>) {
        let ghost s = unread(*reader);
        match args.tag {
            OptionTag::Bool => {
                if reader.read_bool()? {
                    proof {
                        T::lemma_read_len(args.inner, s.skip(1));
                        assert forall|n: int| 0 <= n <= s.len() - 1 implies #[trigger] s.skip(1).skip(n) =~= s.skip(n + 1) by {}
                    }
                    match T::read(reader, &args.inner) {
                        Ok(v) => Ok(Some(v)),
                        Err(e) => Err(e),
                    }
                } else {
                    Ok(None)
                }
            },
            OptionTag::Remaining => match T::read(reader, &args.inner) {
                Ok(v) => Ok(Some(v)),
                Err(e) => {
                    if e == IoError::UnexpectedEof {
                        let data = cursor_get_ref(reader);
                        cursor_set_position(reader, data.len() as u64);
                        assert(s.skip(s.len() as int) =~= Seq::<u8>::empty());
                        Ok(None)
                    } else {
                        Err(e)
                    }
                },
            },
        }
    }
}

impl<T: McWrite> McWrite for Option<T> {
    type Args = OptionArgs<T::Args>;

    open spec fn spec_write(v: Option<T::V>, args: OptionArgs<T::Args>) -> Result<Seq<u8>, IoError> {
        option_write::<T>(args, v)
    }

    fn write(&self, writer: &mut Vec<u8>, args: &OptionArgs<T::Args>) -> (r: Result<(), IoError>) {
        let ghost start = writer@;
        match args.tag {
            OptionTag::Bool => writer.write_bool(self.is_some())?,
            OptionTag::Remaining => {},
        }
        let ghost mid = writer@;
        let ghost p = match args.tag {
            OptionTag::Bool => seq![
                if self.deep_view() is Some {
                    1u8
                } else {
                    0u8
                },
            ],
            OptionTag::Remaining => Seq::<u8>::empty(),
        };
        assert(mid.skip(start.len() as int) =~= p);
        match self {
            Some(val) => {
                val.write(writer, &args.inner)?;
                proof {
                    let b = T::spec_write(val.deep_view(), args.inner)->Ok_0;
                    assert(writer@ =~= start + (mid.skip(start.len() as int) + b));
                }
            },
            None => {
                assert(writer@ =~= start + mid.skip(start.len() as int));
            },
        }
        Ok(())
    }
}

/// Every value of `vs` is read back from what it is written as, whatever
/// follows, using exactly the bytes written.
pub open spec fn all_read_back<T: McRead + McWrite>(
    ra: <T as McRead>::Args,
    wa: <T as McWrite>::Args,
    vs: Seq<<T as DeepView>::V>,
) -> bool {
    forall|i: int, rest: Seq<u8>|
        0 <= i < vs.len() ==> (#[trigger] T::spec_write(vs[i], wa)) is Ok && #[trigger] T::spec_read(
            ra,
            T::spec_write(vs[i], wa)->Ok_0 + rest,
        ) == Ok::<(<T as DeepView>::V, nat), IoError>((vs[i], T::spec_write(vs[i], wa)->Ok_0.len()))
}

/// Values written one after another are read back one after another.
pub proof fn lemma_read_n_write_all<T: McRead + McWrite>(
    ra: <T as McRead>::Args,
    wa: <T as McWrite>::Args,
    vs: Seq<<T as DeepView>::V>,
    rest: Seq<u8>,
)
    requires
        all_read_back::<T>(ra, wa, vs),
    ensures
        write_all::<T>(wa, vs) is Ok,
        read_n::<T>(ra, vs.len(), write_all::<T>(wa, vs)->Ok_0 + rest) == Ok::<(Seq<<T as DeepView>::V>, nat), IoError>(
            (vs, write_all::<T>(wa, vs)->Ok_0.len()),
        ),
    decreases vs.len(),
{
    if vs.len() > 0 {
        let init = vs.drop_last();
        let x = vs.last();
        assert(all_read_back::<T>(ra, wa, init)) by {
            assert forall|i: int, r: Seq<u8>| 0 <= i < init.len() implies (#[trigger] T::spec_write(init[i], wa)) is Ok
                && #[trigger] T::spec_read(ra, T::spec_write(init[i], wa)->Ok_0 + r) == Ok::<
                (<T as DeepView>::V, nat),
                IoError,
            >((init[i], T::spec_write(init[i], wa)->Ok_0.len())) by {
                assert(init[i] == vs[i]);
            }
        }
        let b = T::spec_write(x, wa)->Ok_0;
        assert(T::spec_write(vs[vs.len() - 1], wa) is Ok);
        lemma_read_n_write_all::<T>(ra, wa, init, b + rest);
        let bs = write_all::<T>(wa, init)->Ok_0;
        let s = write_all::<T>(wa, vs)->Ok_0 + rest;
        assert(s =~= bs + (b + rest));
        assert(s.skip(bs.len() as int) =~= b + rest);
        assert(T::spec_read(ra, b + rest) == Ok::<(<T as DeepView>::V, nat), IoError>((x, b.len())));
        assert(read_n::<T>(ra, (vs.len() - 1) as nat, s) == Ok::<(Seq<<T as DeepView>::V>, nat), IoError>((init, bs.len())));
        assert(init.push(x) =~= vs);
        assert(write_all::<T>(wa, vs)->Ok_0 =~= bs + b);
    } else {
        assert(vs =~= Seq::<<T as DeepView>::V>::empty());
    }
}

/// Reading back a list written with a VarInt or a byte for its length
/// gives it back, using exactly the bytes written, when its values read
/// back.
pub proof fn lemma_list_roundtrip<T: McRead + McWrite>(
    ra: <T as McRead>::Args,
    wa: <T as McWrite>::Args,
    length: ListLength,
    vs: Seq<<T as DeepView>::V>,
    rest: Seq<u8>,
)
    requires
        length != ListLength::Remaining,
        all_read_back::<T>(ra, wa, vs),
        list_write::<T>(ListArgs { length, inner: wa }, vs) is Ok,
    ensures
        list_read::<T>(ListArgs { length, inner: ra }, list_write::<T>(ListArgs { length, inner: wa }, vs)->Ok_0 + rest)
            == Ok::<(Seq<<T as DeepView>::V>, nat), IoError>(
            (vs, list_write::<T>(ListArgs { length, inner: wa }, vs)->Ok_0.len()),
        ),
{
    lemma_read_n_write_all::<T>(ra, wa, vs, rest);
    let body = write_all::<T>(wa, vs)->Ok_0;
    if length == ListLength::VarInt {
        let p = ext_var_i32_bytes(vs.len() as i32);
        lemma_ext_var_i32_roundtrip(vs.len() as i32, body + rest);
        assert(p + body + rest =~= p + (body + rest));
        assert((p + body + rest).skip(p.len() as int) =~= body + rest);
    } else {
        let p = seq![vs.len() as u8];
        assert((vs.len() as u8) as i8 == vs.len());
        assert(p + body + rest =~= p + (body + rest));
        assert((p + body + rest).skip(1) =~= body + rest);
    }
}

/// Reading back an optional value written after a boolean gives it back,
/// using exactly the bytes written, when the value inside reads back.
pub proof fn lemma_option_roundtrip<T: McRead + McWrite>(
    ra: <T as McRead>::Args,
    wa: <T as McWrite>::Args,
    v: Option<<T as DeepView>::V>,
    rest: Seq<u8>,
)
    requires
        v matches Some(x) ==> all_read_back::<T>(ra, wa, seq![x]),
    ensures
        option_write::<T>(OptionArgs { tag: OptionTag::Bool, inner: wa }, v) is Ok,
        option_read::<T>(
            OptionArgs { tag: OptionTag::Bool, inner: ra },
            option_write::<T>(OptionArgs { tag: OptionTag::Bool, inner: wa }, v)->Ok_0 + rest,
        ) == Ok::<(Option<<T as DeepView>::V>, nat), IoError>(
            (v, option_write::<T>(OptionArgs { tag: OptionTag::Bool, inner: wa }, v)->Ok_0.len()),
        ),
{
    if let Some(x) = v {
        assert(seq![x][0] == x);
        let b = T::spec_write(x, wa)->Ok_0;
        assert(T::spec_write(seq![x][0], wa) is Ok);
        assert(T::spec_read(ra, T::spec_write(seq![x][0], wa)->Ok_0 + rest) == Ok::<(<T as DeepView>::V, nat), IoError>((x, b.len())));
        assert((seq![1u8] + b + rest).skip(1) =~= b + rest);
        assert(seq![1u8] + b + rest =~= seq![1u8] + (b + rest));
    }
}

} // verus!
