//! Minecraft protocol packet definitions in the `Login` state.

use crate::cursor::unread;
use crate::error::IoError;
use crate::io::args::{IntArgs, ListArgs, ListLength, OptionArgs, OptionTag, StringArgs};
use crate::io::mc::{read_outcome, then_write, write_outcome, McRead, McWrite};
use crate::uuid::Uuid;
use std::io::Cursor;
use crate::io::be::be_bytes;
use crate::io::impls::strings::string_write;
use vstd::prelude::*;

verus! {

/// A packet sent by the client to begin the login process.
#[derive(Clone, PartialEq, Eq, Debug)]
pub struct LoginStart {
    /// The username of the player.
    pub username: String,
    /// The UUID of the player.
    pub uuid: Uuid,
}

impl DeepView for LoginStart {
    type V = (Seq<char>, u128);

    open spec fn deep_view(&self) -> (Seq<char>, u128) {
        (self.username@, self.uuid@)
    }
}

impl McRead for LoginStart {
    type Args = ();

    open spec fn spec_read(args: (), input: Seq<u8>) -> Result<((Seq<char>, u128), nat), IoError> {
        <(String, Uuid) as McRead>::spec_read(((StringArgs { max_len: Some(16) }), ()), input)
    }

    open spec fn read_ok(args: ()) -> bool {
        true
    }

    open spec fn progresses(args: ()) -> bool {
        true
    }

    proof fn lemma_read_len(args: (), input: Seq<u8>) {
        <(String, Uuid) as McRead>::lemma_read_len(((StringArgs { max_len: Some(16) }), ()), input);
    }

    fn read(reader: &mut Cursor<&[u8]>, args: &()) -> (r: Result<LoginStart, IoError>) {
        let (username, uuid) = <(String, Uuid) as McRead>::read(reader, &((StringArgs { max_len: Some(16) }), ()))?;
        Ok(LoginStart { username, uuid })
    }
}

/// A packet sent by the client to finish the login process.
#[derive(Clone, Copy, PartialEq, Eq, Debug, Default)]
pub struct LoginAcknowledged;

impl DeepView for LoginAcknowledged {
    type V = ();

    open spec fn deep_view(&self) -> () {
        ()
    }
}

impl McRead for LoginAcknowledged {
    type Args = ();

    /// The packet has no contents: reading it takes no bytes.
    open spec fn spec_read(args: (), input: Seq<u8>) -> Result<((), nat), IoError> {
        Ok(((), 0))
    }

    open spec fn read_ok(args: ()) -> bool {
        true
    }

    open spec fn progresses(args: ()) -> bool {
        false
    }

    proof fn lemma_read_len(args: (), input: Seq<u8>) {
    }

    fn read(reader: &mut Cursor<&[u8]>, args: &()) -> (r: Result<LoginAcknowledged, IoError>) {
        assert(unread(*reader).skip(0) =~= unread(*reader));
        Ok(LoginAcknowledged)
    }
}

/// A player profile property.
#[derive(Clone, PartialEq, Eq, Debug)]
pub struct Property {
    /// The name of the property.
    pub name: String,
    /// The value of the property.
    pub value: String,
    /// The encrypted signature of the property.
    pub signature: Option<String>,
}

impl DeepView for Property {
    type V = Property;

    open spec fn deep_view(&self) -> Property {
        *self
    }
}

/// Writing a property: its name and value (strings of at most 32767 bytes), then its signature, if any, after a boolean.
pub open spec fn property_write(v: Property) -> Result<Seq<u8>, IoError> {
    then_write(then_write(<String as McWrite>::spec_write(v.name.deep_view(), (StringArgs { max_len: Some(32767) })), <String as McWrite>::spec_write(v.value.deep_view(), (StringArgs { max_len: Some(32767) }))), <Option<String> as McWrite>::spec_write(v.signature.deep_view(), (OptionArgs { tag: OptionTag::Bool, inner: StringArgs { max_len: Some(32767) } })))
}

impl McWrite for Property {
    type Args = ();

    open spec fn spec_write(v: Property, args: ()) -> Result<Seq<u8>, IoError> {
        property_write(v)
    }

    fn write(&self, writer: &mut Vec<u8>, args: &()) -> (r: Result<(), IoError>) {
        let ghost start = writer@;
        self.name.write(writer, &(StringArgs { max_len: Some(32767) }))?;
        let ghost c0 = <String as McWrite>::spec_write(self.deep_view().name.deep_view(), (StringArgs { max_len: Some(32767) }));
        assert(writer@ =~= start + c0->Ok_0);
        self.value.write(writer, &(StringArgs { max_len: Some(32767) }))?;
        let ghost c1 = then_write(c0, <String as McWrite>::spec_write(self.deep_view().value.deep_view(), (StringArgs { max_len: Some(32767) })));
        assert(writer@ =~= start + c1->Ok_0);
        self.signature.write(writer, &(OptionArgs { tag: OptionTag::Bool, inner: StringArgs { max_len: Some(32767) } }))?;
        let ghost c2 = then_write(c1, <Option<String> as McWrite>::spec_write(self.deep_view().signature.deep_view(), (OptionArgs { tag: OptionTag::Bool, inner: StringArgs { max_len: Some(32767) } })));
        assert(writer@ =~= start + c2->Ok_0);
        Ok(())
    }
}

/// A packet sent by the server to indicate a successful login.
#[derive(Clone, PartialEq, Eq, Debug)]
pub struct LoginSuccess {
    /// The UUID of the player.
    pub uuid: Uuid,
    /// The username of the player.
    pub username: String,
    /// The properties of the player, such as their skin.
    pub properties: Vec<Property>,
}

impl DeepView for LoginSuccess {
    type V = LoginSuccess;

    open spec fn deep_view(&self) -> LoginSuccess {
        *self
    }
}

/// Writing a login success: the UUID, the username (at most 16 bytes), then the properties as a list.
pub open spec fn login_success_write(v: LoginSuccess) -> Result<Seq<u8>, IoError> {
    then_write(then_write(<Uuid as McWrite>::spec_write(v.uuid.deep_view(), ()), <String as McWrite>::spec_write(v.username.deep_view(), (StringArgs { max_len: Some(16) }))), <Vec<Property> as McWrite>::spec_write(v.properties.deep_view(), (ListArgs { length: ListLength::VarInt, inner: () })))
}

impl McWrite for LoginSuccess {
    type Args = ();

    open spec fn spec_write(v: LoginSuccess, args: ()) -> Result<Seq<u8>, IoError> {
        login_success_write(v)
    }

    fn write(&self, writer: &mut Vec<u8>, args: &()) -> (r: Result<(), IoError>) {
        let ghost start = writer@;
        self.uuid.write(writer, &())?;
        let ghost c0 = <Uuid as McWrite>::spec_write(self.deep_view().uuid.deep_view(), ());
        assert(writer@ =~= start + c0->Ok_0);
        self.username.write(writer, &(StringArgs { max_len: Some(16) }))?;
        let ghost c1 = then_write(c0, <String as McWrite>::spec_write(self.deep_view().username.deep_view(), (StringArgs { max_len: Some(16) })));
        assert(writer@ =~= start + c1->Ok_0);
        self.properties.write(writer, &(ListArgs { length: ListLength::VarInt, inner: () }))?;
        let ghost c2 = then_write(c1, <Vec<Property> as McWrite>::spec_write(self.deep_view().properties.deep_view(), (ListArgs { length: ListLength::VarInt, inner: () })));
        assert(writer@ =~= start + c2->Ok_0);
        Ok(())
    }
}

/// A property is written as its name, then its value (strings of at most
/// 32767 bytes), then its signature, if any, after a boolean.
pub proof fn lemma_property_layout(v: Property)
    ensures
        <Property as McWrite>::spec_write(v, ()) == then_write(then_write(string_write(Some(32767usize), v.name@), string_write(Some(32767usize), v.value@)), <Option<String> as McWrite>::spec_write(v.signature.deep_view(), (OptionArgs { tag: OptionTag::Bool, inner: StringArgs { max_len: Some(32767) } }))),
{
}

/// A login success is written as the 16 big-endian bytes of the UUID, then
/// the username (at most 16 bytes), then the properties after a VarInt
/// count.
pub proof fn lemma_login_success_layout(v: LoginSuccess)
    ensures
        <LoginSuccess as McWrite>::spec_write(v, ()) == then_write(then_write(Ok::<Seq<u8>, IoError>(be_bytes(v.uuid@ as nat, 16)), string_write(Some(16usize), v.username@)), <Vec<Property> as McWrite>::spec_write(v.properties.deep_view(), (ListArgs { length: ListLength::VarInt, inner: () }))),
{
}

/// A login start is read as the username, then the UUID: what it stands
/// for is its username's characters and its UUID's bits.
pub proof fn lemma_login_start_fields(v: LoginStart)
    ensures
        v.deep_view().0 == v.username@,
        v.deep_view().1 == v.uuid@,
{
}

} // verus!
