//! Pairs and triples: their parts one after another.

use crate::cursor::unread;
use crate::error::IoError;
use crate::io::impls::lists::{prefixed, shifted};
use crate::io::mc::{read_outcome, write_outcome, McRead, McWrite};
use std::io::Cursor;
use vstd::prelude::*;

verus! {

/// Reading a pair: its first part, then its second.
pub open spec fn pair_read<A: McRead, B: McRead>(args: (A::Args, B::Args), s: Seq<u8>) -> Result<
    ((A::V, B::V), nat),
    IoError,
> {
    match A::spec_read(args.0, s) {
        Err(e) => Err(e),
        Ok((a, n)) => match B::spec_read(args.1, s.skip(n as int)) {
            Err(e) => Err(e),
            Ok((b, m)) => Ok(((a, b), n + m)),
        },
    }
}

/// Writing a pair: the bytes of its first part, then those of its second.
pub open spec fn pair_write<A: McWrite, B: McWrite>(args: (A::Args, B::Args), v: (A::V, B::V)) -> Result<
    Seq<u8>,
    IoError,
> {
    match A::spec_write(v.0, args.0) {
        Err(e) => Err(e),
        Ok(a) => prefixed(a, B::spec_write(v.1, args.1)),
    }
}

/// Reading a triple: its parts in order.
pub open spec fn triple_read<A: McRead, B: McRead, C: McRead>(
    args: (A::Args, B::Args, C::Args),
    s: Seq<u8>,
) -> Result<((A::V, B::V, C::V), nat), IoError> {
    match pair_read::<A, B>((args.0, args.1), s) {
        Err(e) => Err(e),
        Ok(((a, b), n)) => match C::spec_read(args.2, s.skip(n as int)) {
            Err(e) => Err(e),
            Ok((c, m)) => Ok(((a, b, c), n + m)),
        },
    }
}

/// Writing a triple: the bytes of its parts in order.
pub open spec fn triple_write<A: McWrite, B: McWrite, C: McWrite>(
    args: (A::Args, B::Args, C::Args),
    v: (A::V, B::V, C::V),
) -> Result<Seq<u8>, IoError> {
    match pair_write::<A, B>((args.0, args.1), (v.0, v.1)) {
        Err(e) => Err(e),
        Ok(ab) => prefixed(ab, C::spec_write(v.2, args.2)),
    }
}

impl<A: McRead, B: McRead> McRead for (A, B) {
    type Args = (A::Args, B::Args);

    open spec fn spec_read(args: (A::Args, B::Args), input: Seq<u8>) -> Result<((A::V, B::V), nat), IoError> {
        pair_read::<A, B>(args, input)
    }

    open spec fn read_ok(args: (A::Args, B::Args)) -> bool {
        A::read_ok(args.0) && B::read_ok(args.1)
    }

    open spec fn progresses(args: (A::Args, B::Args)) -> bool {
        A::progresses(args.0) || B::progresses(args.1)
    }

    proof fn lemma_read_len(args: (A::Args, B::Args), input: Seq<u8>) {
        A::lemma_read_len(args.0, input);
        if let Ok((a, n)) = A::spec_read(args.0, input) {
            B::lemma_read_len(args.1, input.skip(n as int));
        }
    }

    fn read(reader: &mut Cursor<&[u8]>, args: &(A::Args, B::Args)) -> (r: Result<(A, B), IoError>) {
        let ghost s = unread(*reader);
        proof {
            A::lemma_read_len(args.0, s);
        }
        let a = A::read(reader, &args.0)?;
        let ghost n = (s.len() - unread(*reader).len()) as nat;
        proof {
            B::lemma_read_len(args.1, s.skip(n as int));
        }
        let b = B::read(reader, &args.1)?;
        proof {
            if let Ok((_, m)) = B::spec_read(args.1, s.skip(n as int)) {
                assert(s.skip(n as int).skip(m as int) =~= s.skip((n + m) as int));
            }
        }
        Ok((a, b))
    }
}

impl<A: McWrite, B: McWrite> McWrite for (A, B) {
    type Args = (A::Args, B::Args);

    open spec fn spec_write(v: (A::V, B::V), args: (A::Args, B::Args)) -> Result<Seq<u8>, IoError> {
        pair_write::<A, B>(args, v)
    }

    fn write(&self, writer: &mut Vec<u8>, args: &(A::Args, B::Args)) -> (r: Result<(), IoError>) {
        let ghost start = writer@;
        self.0.write(writer, &args.0)?;
        let ghost mid = writer@;
        self.1.write(writer, &args.1)?;
        proof {
            let a = A::spec_write(self.0.deep_view(), args.0)->Ok_0;
            let b = B::spec_write(self.1.deep_view(), args.1)->Ok_0;
            assert(writer@ =~= start + (a + b));
        }
        Ok(())
    }
}

impl<A: McRead, B: McRead, C: McRead> McRead for (A, B, C) {
    type Args = (A::Args, B::Args, C::Args);

    open spec fn spec_read(args: (A::Args, B::Args, C::Args), input: Seq<u8>) -> Result<
        ((A::V, B::V, C::V), nat),
        IoError,
    > {
        triple_read::<A, B, C>(args, input)
    }

    open spec fn read_ok(args: (A::Args, B::Args, C::Args)) -> bool {
        A::read_ok(args.0) && B::read_ok(args.1) && C::read_ok(args.2)
    }

    open spec fn progresses(args: (A::Args, B::Args, C::Args)) -> bool {
        A::progresses(args.0) || B::progresses(args.1) || C::progresses(args.2)
    }

    proof fn lemma_read_len(args: (A::Args, B::Args, C::Args), input: Seq<u8>) {
        <(A, B) as McRead>::lemma_read_len((args.0, args.1), input);
        if let Ok((_, n)) = pair_read::<A, B>((args.0, args.1), input) {
            C::lemma_read_len(args.2, input.skip(n as int));
        }
    }

    fn read(reader: &mut Cursor<&[u8]>, args: &(A::Args, B::Args, C::Args)) -> (r: Result<(A, B, C), IoError>) {
        let ghost s = unread(*reader);
        proof {
            A::lemma_read_len(args.0, s);
        }
        let a = A::read(reader, &args.0)?;
        let ghost n = (s.len() - unread(*reader).len()) as nat;
        proof {
            B::lemma_read_len(args.1, s.skip(n as int));
        }
        let b = B::read(reader, &args.1)?;
        let ghost m = (s.skip(n as int).len() - unread(*reader).len()) as nat;
        proof {
            assert(s.skip(n as int).skip(m as int) =~= s.skip((n + m) as int));
            C::lemma_read_len(args.2, s.skip((n + m) as int));
        }
        let c = C::read(reader, &args.2)?;
        proof {
            if let Ok((_, k)) = C::spec_read(args.2, s.skip((n + m) as int)) {
                assert(s.skip((n + m) as int).skip(k as int) =~= s.skip((n + m + k) as int));
            }
        }
        Ok((a, b, c))
    }
}

impl<A: McWrite, B: McWrite, C: McWrite> McWrite for (A, B, C) {
    type Args = (A::Args, B::Args, C::Args);

    open spec fn spec_write(v: (A::V, B::V, C::V), args: (A::Args, B::Args, C::Args)) -> Result<
        Seq<u8>,
        IoError,
    > {
        triple_write::<A, B, C>(args, v)
    }

    fn write(&self, writer: &mut Vec<u8>, args: &(A::Args, B::Args, C::Args)) -> (r: Result<(), IoError>) {
        let ghost start = writer@;
        self.0.write(writer, &args.0)?;
        self.1.write(writer, &args.1)?;
        self.2.write(writer, &args.2)?;
        proof {
            let a = A::spec_write(self.0.deep_view(), args.0)->Ok_0;
            let b = B::spec_write(self.1.deep_view(), args.1)->Ok_0;
            let c = C::spec_write(self.2.deep_view(), args.2)->Ok_0;
            assert(writer@ =~= start + ((a + b) + c));
        }
        Ok(())
    }
}

} // verus!
