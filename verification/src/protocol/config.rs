//! Minecraft protocol packet definitions in the `Config` state.

use crate::cursor::unread;
use crate::error::IoError;
use crate::io::args::{IntArgs, ListArgs, ListLength, OptionArgs, OptionTag, StringArgs};
use crate::io::mc::{read_outcome, then_write, write_outcome, McRead, McWrite};
use crate::uuid::Uuid;
use std::io::Cursor;
use crate::io::impls::strings::string_write;
use vstd::prelude::*;

verus! {

/// A data pack that the server knows about.
#[derive(Clone, PartialEq, Eq, Debug)]
pub struct DataPack {
    /// The namespace of the data pack.
    pub namespace: String,
    /// The ID of the data pack.
    pub id: String,
    /// The version of the data pack.
    pub version: String,
}

impl DeepView for DataPack {
    type V = (Seq<char>, Seq<char>, Seq<char>);

    open spec fn deep_view(&self) -> (Seq<char>, Seq<char>, Seq<char>) {
        (self.namespace@, self.id@, self.version@)
    }
}

impl McRead for DataPack {
    type Args = ();

    open spec fn spec_read(args: (), input: Seq<u8>) -> Result<((Seq<char>, Seq<char>, Seq<char>), nat), IoError> {
        <(String, String, String) as McRead>::spec_read(((StringArgs { max_len: None }), (StringArgs { max_len: None }), (StringArgs { max_len: None })), input)
    }

    open spec fn read_ok(args: ()) -> bool {
        true
    }

    open spec fn progresses(args: ()) -> bool {
        true
    }

    proof fn lemma_read_len(args: (), input: Seq<u8>) {
        <(String, String, String) as McRead>::lemma_read_len(((StringArgs { max_len: None }), (StringArgs { max_len: None }), (StringArgs { max_len: None })), input);
    }

    fn read(reader: &mut Cursor<&[u8]>, args: &()) -> (r: Result<DataPack, IoError>) {
        let (namespace, id, version) = <(String, String, String) as McRead>::read(reader, &((StringArgs { max_len: None }), (StringArgs { max_len: None }), (StringArgs { max_len: None })))?;
        Ok(DataPack { namespace, id, version })
    }
}

/// Writing a data pack: its namespace, ID and version, each a string.
pub open spec fn data_pack_write(v: (Seq<char>, Seq<char>, Seq<char>)) -> Result<Seq<u8>, IoError> {
    then_write(then_write(<String as McWrite>::spec_write(v.0, (StringArgs { max_len: None })), <String as McWrite>::spec_write(v.1, (StringArgs { max_len: None }))), <String as McWrite>::spec_write(v.2, (StringArgs { max_len: None })))
}

impl McWrite for DataPack {
    type Args = ();

    open spec fn spec_write(v: (Seq<char>, Seq<char>, Seq<char>), args: ()) -> Result<Seq<u8>, IoError> {
        data_pack_write(v)
    }

    fn write(&self, writer: &mut Vec<u8>, args: &()) -> (r: Result<(), IoError>) {
        let ghost start = writer@;
        self.namespace.write(writer, &(StringArgs { max_len: None }))?;
        let ghost c0 = <String as McWrite>::spec_write(self.deep_view().0, (StringArgs { max_len: None }));
        assert(writer@ =~= start + c0->Ok_0);
        self.id.write(writer, &(StringArgs { max_len: None }))?;
        let ghost c1 = then_write(c0, <String as McWrite>::spec_write(self.deep_view().1, (StringArgs { max_len: None })));
        assert(writer@ =~= start + c1->Ok_0);
        self.version.write(writer, &(StringArgs { max_len: None }))?;
        let ghost c2 = then_write(c1, <String as McWrite>::spec_write(self.deep_view().2, (StringArgs { max_len: None })));
        assert(writer@ =~= start + c2->Ok_0);
        Ok(())
    }
}

/// A packet sent by both the client and the server to inform each other
/// of the data packs that they know about.
#[derive(Clone, PartialEq, Eq, Debug)]
pub struct KnownDataPacks {
    /// The data packs that the server knows about.
    pub packs: Vec<DataPack>,
}

impl DeepView for KnownDataPacks {
    type V = Seq<(Seq<char>, Seq<char>, Seq<char>)>;

    open spec fn deep_view(&self) -> Seq<(Seq<char>, Seq<char>, Seq<char>)> {
        self.packs.deep_view()
    }
}

impl McRead for KnownDataPacks {
    type Args = ();

    open spec fn spec_read(args: (), input: Seq<u8>) -> Result<(Seq<(Seq<char>, Seq<char>, Seq<char>)>, nat), IoError> {
        <Vec<DataPack> as McRead>::spec_read((ListArgs { length: ListLength::VarInt, inner: () }), input)
    }

    open spec fn read_ok(args: ()) -> bool {
        true
    }

    open spec fn progresses(args: ()) -> bool {
        true
    }

    proof fn lemma_read_len(args: (), input: Seq<u8>) {
        <Vec<DataPack> as McRead>::lemma_read_len((ListArgs { length: ListLength::VarInt, inner: () }), input);
    }

    fn read(reader: &mut Cursor<&[u8]>, args: &()) -> (r: Result<KnownDataPacks, IoError>) {
        let packs = <Vec<DataPack> as McRead>::read(reader, &(ListArgs { length: ListLength::VarInt, inner: () }))?;
        Ok(KnownDataPacks { packs })
    }
}

impl McWrite for KnownDataPacks {
    type Args = ();

    open spec fn spec_write(v: Seq<(Seq<char>, Seq<char>, Seq<char>)>, args: ()) -> Result<Seq<u8>, IoError> {
        <Vec<DataPack> as McWrite>::spec_write(v, (ListArgs { length: ListLength::VarInt, inner: () }))
    }

    fn write(&self, writer: &mut Vec<u8>, args: &()) -> (r: Result<(), IoError>) {
        self.packs.write(writer, &(ListArgs { length: ListLength::VarInt, inner: () }))
    }
}

/// A packet sent by the server to signal the end of the configuration process.
#[derive(Clone, Copy, PartialEq, Eq, Debug, Default)]
pub struct Finish;

impl DeepView for Finish {
    type V = ();

    open spec fn deep_view(&self) -> () {
        ()
    }
}

impl McWrite for Finish {
    type Args = ();

    /// The packet has no contents.
    open spec fn spec_write(v: (), args: ()) -> Result<Seq<u8>, IoError> {
        Ok(Seq::empty())
    }

    fn write(&self, writer: &mut Vec<u8>, args: &()) -> (r: Result<(), IoError>) {
        assert(writer@ =~= writer@ + Seq::<u8>::empty());
        Ok(())
    }
}

/// A packet sent by the client to acknowledge the end of the configuration process.
#[derive(Clone, Copy, PartialEq, Eq, Debug, Default)]
pub struct AcknowledgeFinish;

impl DeepView for AcknowledgeFinish {
    type V = ();

    open spec fn deep_view(&self) -> () {
        ()
    }
}

impl McRead for AcknowledgeFinish {
    type Args = ();

    /// The packet has no contents: reading it takes no bytes.
    open spec fn spec_read(args: (), input: Seq<u8>) -> Result<((), nat), IoError> {
        Ok(((), 0))
    }

    open spec fn read_ok(args: ()) -> bool {
        true
    }

    open spec fn progresses(args: ()) -> bool {
        false
    }

    proof fn lemma_read_len(args: (), input: Seq<u8>) {
    }

    fn read(reader: &mut Cursor<&[u8]>, args: &()) -> (r: Result<AcknowledgeFinish, IoError>) {
        assert(unread(*reader).skip(0) =~= unread(*reader));
        Ok(AcknowledgeFinish)
    }
}

/// General information about the client.
#[derive(Clone, PartialEq, Eq, Debug)]
pub struct ClientInformation {
    /// The locale of the client, e.g. `en_US`.
    pub locale: String,
    /// The view distance of the client.
    pub view_distance: i8,
    /// The chat mode of the client.
    /// 0: enabled, 1: commands only, 2: hidden.
    pub chat_mode: i32,
    /// Whether chat colors are enabled.
    pub chat_colors: bool,
    /// The displayed skin parts of the client.
    pub displayed_skin_parts: u8,
    /// The main hand of the client.
    /// 0: left, 1: right.
    pub main_hand: i32,
    /// Whether text filtering is enabled.
    pub enable_text_filtering: bool,
    /// Whether server listings are allowed.
    pub allow_server_listings: bool,
}

/// The fields of client information in the order they are read, grouped
/// in threes.
impl DeepView for ClientInformation {
    type V = ((Seq<char>, i8, i32), (bool, u8, i32), (bool, bool));

    open spec fn deep_view(&self) -> ((Seq<char>, i8, i32), (bool, u8, i32), (bool, bool)) {
        (
            (self.locale@, self.view_distance, self.chat_mode),
            (self.chat_colors, self.displayed_skin_parts, self.main_hand),
            (self.enable_text_filtering, self.allow_server_listings),
        )
    }
}

impl McRead for ClientInformation {
    type Args = ();

    open spec fn spec_read(args: (), input: Seq<u8>) -> Result<(((Seq<char>, i8, i32), (bool, u8, i32), (bool, bool)), nat), IoError> {
        <((String, i8, i32), (bool, u8, i32), (bool, bool)) as McRead>::spec_read((((StringArgs { max_len: Some(16) }), (), (IntArgs { varint: true })), ((), (), (IntArgs { varint: true })), ((), ())), input)
    }

    open spec fn read_ok(args: ()) -> bool {
        true
    }

    open spec fn progresses(args: ()) -> bool {
        true
    }

    proof fn lemma_read_len(args: (), input: Seq<u8>) {
        <((String, i8, i32), (bool, u8, i32), (bool, bool)) as McRead>::lemma_read_len((((StringArgs { max_len: Some(16) }), (), (IntArgs { varint: true })), ((), (), (IntArgs { varint: true })), ((), ())), input);
    }

    fn read(reader: &mut Cursor<&[u8]>, args: &()) -> (r: Result<ClientInformation, IoError>) {
        let ((locale, view_distance, chat_mode), (chat_colors, displayed_skin_parts, main_hand), (enable_text_filtering, allow_server_listings)) = <((String, i8, i32), (bool, u8, i32), (bool, bool)) as McRead>::read(reader, &(((StringArgs { max_len: Some(16) }), (), (IntArgs { varint: true })), ((), (), (IntArgs { varint: true })), ((), ())))?;
        Ok(ClientInformation { locale, view_distance, chat_mode, chat_colors, displayed_skin_parts, main_hand, enable_text_filtering, allow_server_listings })
    }
}

/// A packet sent by the server to fill the client's registry.
#[derive(Clone, PartialEq, Debug)]
pub struct RegistryData<T> {
    /// The ID of the registry.
    pub registry_id: String,
    /// The entries in the registry.
    pub entries: Vec<RegistryDataEntry<T>>,
}

/// An entry in [`RegistryData`].
#[derive(Clone, PartialEq, Debug)]
pub struct RegistryDataEntry<T> {
    /// The ID of the entry.
    pub entry_id: String,
    /// The data of the entry, if any.
    pub data: Option<T>,
}

/// Reading the start of a registry entry: its ID (a string of at most 32767
/// bytes) and whether data follows (a boolean).
pub open spec fn entry_header_read(input: Seq<u8>) -> Result<((Seq<char>, bool), nat), IoError> {
    <(String, bool) as McRead>::spec_read(((StringArgs { max_len: Some(32767) }), ()), input)
}

/// Writing the start of a registry entry: its ID, then whether data follows.
pub open spec fn entry_header_write(entry_id: Seq<char>, has_data: bool) -> Result<Seq<u8>, IoError> {
    <(String, bool) as McWrite>::spec_write((entry_id, has_data), ((StringArgs { max_len: Some(32767) }), ()))
}

impl<T> RegistryDataEntry<T> {
    /// Reads the start of an entry: its ID and whether NBT data follows,
    /// which is read with the NBT format's own reader.
    pub fn read_header(reader: &mut Cursor<&[u8]>) -> (r: Result<(String, bool), IoError>)
        ensures
            read_outcome(unread(*old(reader)), unread(*final(reader)), entry_header_read(unread(*old(reader))), r),
    {
        <(String, bool) as McRead>::read(reader, &(StringArgs { max_len: Some(32767) }, ()))
    }

    /// Writes the start of this entry: its ID and whether NBT data follows,
    /// which is written with the NBT format's own writer.
    pub fn write_header(&self, writer: &mut Vec<u8>) -> (r: Result<(), IoError>)
        ensures
            write_outcome(old(writer)@, final(writer)@, entry_header_write(self.entry_id@, self.data is Some), r),
    {
        let ghost start = writer@;
        self.entry_id.write(writer, &StringArgs { max_len: Some(32767) })?;
        let has_data = self.data.is_some();
        has_data.write(writer, &())?;
        proof {
            let a = <String as McWrite>::spec_write(self.entry_id@, StringArgs { max_len: Some(32767) })->Ok_0;
            let b = <bool as McWrite>::spec_write(has_data, ())->Ok_0;
            assert(writer@ =~= start + (a + b));
        }
        Ok(())
    }
}

impl<T> RegistryData<T> {
    /// Reads the start of the packet: the registry's ID, a string of at most
    /// 32767 bytes. The entries follow as a list.
    pub fn read_registry_id(reader: &mut Cursor<&[u8]>) -> (r: Result<String, IoError>)
        ensures
            read_outcome(
                unread(*old(reader)),
                unread(*final(reader)),
                <String as McRead>::spec_read((StringArgs { max_len: Some(32767) }), unread(*old(reader))),
                r,
            ),
    {
        String::read(reader, &StringArgs { max_len: Some(32767) })
    }

    /// Writes the start of the packet: the registry's ID and the number of
    /// entries that follow.
    pub fn write_header(&self, writer: &mut Vec<u8>) -> (r: Result<(), IoError>)
        ensures
            write_outcome(
                old(writer)@,
                final(writer)@,
                then_write(
                    <String as McWrite>::spec_write(self.registry_id@, (StringArgs { max_len: Some(32767) })),
                    if self.entries@.len() <= i32::MAX {
                        Ok(crate::io::ext::ext_var_i32_bytes(self.entries@.len() as i32))
                    } else {
                        Err(IoError::InvalidData)
                    },
                ),
                r,
            ),
    {
        write_id_and_count(writer, &self.registry_id, self.entries.len())
    }
}

/// Writes a registry's ID, then a list's length.
fn write_id_and_count(writer: &mut Vec<u8>, registry_id: &String, len: usize) -> (r: Result<(), IoError>)
    ensures
        write_outcome(
            old(writer)@,
            final(writer)@,
            then_write(
                <String as McWrite>::spec_write(registry_id@, (StringArgs { max_len: Some(32767) })),
                if len <= i32::MAX {
                    Ok(crate::io::ext::ext_var_i32_bytes(len as i32))
                } else {
                    Err(IoError::InvalidData)
                },
            ),
            r,
        ),
{
    let ghost start = writer@;
    registry_id.write(writer, &StringArgs { max_len: Some(32767) })?;
    let ghost mid = writer@;
    crate::io::ext::WriteMinecraftExt::write_var_i32_len(writer, len)?;
    proof {
        let a = <String as McWrite>::spec_write(registry_id@, StringArgs { max_len: Some(32767) })->Ok_0;
        assert(writer@ =~= start + (a + crate::io::ext::ext_var_i32_bytes(len as i32)));
    }
    Ok(())
}

/// A data pack is written as its namespace, then its ID, then its
/// version, each a string; what a data pack stands for is those three, in
/// that order.
pub proof fn lemma_data_pack_layout(d: DataPack, v: (Seq<char>, Seq<char>, Seq<char>))
    ensures
        <DataPack as McWrite>::spec_write(v, ()) == then_write(then_write(string_write(None, v.0), string_write(None, v.1)), string_write(None, v.2)),
        d.deep_view() == (d.namespace@, d.id@, d.version@),
{
}

/// Client information is read as the locale, view distance, chat mode,
/// chat colors, displayed skin parts, main hand, text filtering and server
/// listings, in that order.
pub proof fn lemma_client_information_fields(c: ClientInformation)
    ensures
        c.deep_view().0.0 == c.locale@,
        c.deep_view().0.1 == c.view_distance,
        c.deep_view().0.2 == c.chat_mode,
        c.deep_view().1.0 == c.chat_colors,
        c.deep_view().1.1 == c.displayed_skin_parts,
        c.deep_view().1.2 == c.main_hand,
        c.deep_view().2.0 == c.enable_text_filtering,
        c.deep_view().2.1 == c.allow_server_listings,
{
}

} // verus!
