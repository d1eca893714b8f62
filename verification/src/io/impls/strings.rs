//! Strings, lists and optional values.

use crate::cursor::{cursor_data, cursor_get_ref, cursor_set_position, unread};
use crate::error::IoError;
use crate::io::args::{ListArgs, ListLength, OptionArgs, OptionTag, StringArgs};
use crate::io::ext::{
    ext_var_i32_bytes, lemma_ext_var_i32_roundtrip, lemma_string_roundtrip, lemma_var_decode_len, read_exact_bytes, var_len_decode, ReadMinecraftExt,
    WriteMinecraftExt,
};
use crate::io::mc::{read_outcome, write_outcome, McRead, McWrite};
use crate::text::string_from_utf8;
use std::io::Cursor;
use vstd::prelude::*;
use vstd::string::StringSliceAdditionalSpecFns;
use vstd::utf8::{decode_utf8, encode_utf8, valid_utf8};

verus! {

/// Reading a string: a VarInt byte count (at most `max_len`, if given), then
/// that many bytes of valid UTF-8.
pub open spec fn string_read(max_len: Option<usize>, s: Seq<u8>) -> Result<(Seq<char>, nat), IoError> {
    match var_len_decode(s) {
        Err(e) => Err(e),
        Ok((len, n)) => if max_len matches Some(m) && len > m {
            Err(IoError::InvalidData)
        } else if s.len() - n < len {
            Err(IoError::UnexpectedEof)
        } else {
            let b = s.subrange(n as int, (n + len) as int);
            if valid_utf8(b) {
                Ok((decode_utf8(b), n + len))
            } else {
                Err(IoError::InvalidData)
            }
        },
    }
}

/// Writing a string: its UTF-8 bytes prefixed by their count as a VarInt;
/// invalid when they exceed `max_len` (if given) or `i32::MAX`.
pub open spec fn string_write(max_len: Option<usize>, v: Seq<char>) -> Result<Seq<u8>, IoError> {
    let b = encode_utf8(v);
    if max_len matches Some(m) && b.len() > m {
        Err(IoError::InvalidData)
    } else if b.len() > i32::MAX {
        Err(IoError::InvalidData)
    } else {
        Ok(ext_var_i32_bytes(b.len() as i32) + b)
    }
}

impl McRead for String {
    type Args = StringArgs;

    open spec fn spec_read(args: StringArgs, input: Seq<u8>) -> Result<(Seq<char>, nat), IoError> {
        string_read(args.max_len, input)
    }

    open spec fn read_ok(args: StringArgs) -> bool {
        true
    }

    open spec fn progresses(args: StringArgs) -> bool {
        true
    }

    proof fn lemma_read_len(args: StringArgs, input: Seq<u8>) {
        lemma_var_decode_len(input, 5, 5);
    }

    fn read(reader: &mut Cursor<&[u8]>, args: &StringArgs) -> (r: Result<String, IoError>) {
        let ghost s = unread(*reader);
        proof {
            lemma_var_decode_len(s, 5, 5);
        }
        // Read the len value and check upper bound
        let len = reader.read_var_i32_len()?;
        let ghost n = (s.len() - unread(*reader).len()) as nat;
        match args.max_len {
            Some(max_len) => {
                if len > max_len {
                    return Err(IoError::InvalidData);
                }
            },
            None => {},
        }
        // Read the actual string as bytes
        let bytes = read_exact_bytes(reader, len)?;
        proof {
            assert(unread(*old(reader)).skip(n as int).take(len as int) =~= s.subrange(
                n as int,
                (n + len) as int,
            ));
            assert(s.skip(n as int).skip(len as int) =~= s.skip((n + len) as int));
        }
        // Try to convert the bytes into valid UTF-8
        match string_from_utf8(bytes) {
            Some(string) => Ok(string),
            None => Err(IoError::InvalidData),
        }
    }
}

impl McWrite for String {
    type Args = StringArgs;

    open spec fn spec_write(v: Seq<char>, args: StringArgs) -> Result<Seq<u8>, IoError> {
        string_write(args.max_len, v)
    }

    fn write(&self, writer: &mut Vec<u8>, args: &StringArgs) -> (r: Result<(), IoError>) {
        let bytes = self.as_str().as_bytes();
        match args.max_len {
            Some(max_len) => {
                if bytes.len() > max_len {
                    return Err(IoError::InvalidData);
                }
            },
            None => {},
        }
        let ghost start = writer@;
        writer.write_var_i32_len(bytes.len())?;
        writer.write_bytes_remaining(bytes)?;
        assert(writer@ =~= start + (ext_var_i32_bytes(bytes@.len() as i32) + bytes@));
        Ok(())
    }
}

/// Reading back a string that was written gives it back, using exactly the
/// bytes written.
pub proof fn lemma_string_mc_roundtrip(max_len: Option<usize>, chars: Seq<char>, rest: Seq<u8>)
    requires
        string_write(max_len, chars) is Ok,
    ensures
        string_read(max_len, string_write(max_len, chars)->Ok_0 + rest) == Ok::<(Seq<char>, nat), IoError>(
            (chars, string_write(max_len, chars)->Ok_0.len()),
        ),
{
    let b = encode_utf8(chars);
    let p = ext_var_i32_bytes(b.len() as i32);
    lemma_string_roundtrip(chars, rest);
    lemma_ext_var_i32_roundtrip(b.len() as i32, b + rest);
    assert(p + b + rest =~= p + (b + rest));
}

} // verus!
