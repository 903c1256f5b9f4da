//! The Configuration phase: the client's acknowledgement, the known
//! content packs, the registry data pushed by the server, and the finish
//! marker.

use crate::bytebuf::ByteBuf;
use crate::wire::{
    bool_byte, parse_string, parse_varint, string_enc, u32_of_i32, varint_enc, WireError,
};
use vstd::prelude::*;
use vstd::utf8::encode_utf8;

verus! {

#[derive(Clone, Copy, Debug, PartialEq, Eq, Structural)]
pub enum EServerConfigurationPacket {
    ServerBoundConfigurationAcknowledgeFinishConfiguration,
}

pub struct ServerConfigurationPacketFactory {}

// -- serverbound --

/// The client's acknowledgement that configuration is finished: an empty
/// payload.
#[derive(Debug)]
pub struct ServerBoundConfigurationAcknowledgeFinishConfiguration {}

impl Default for ServerBoundConfigurationAcknowledgeFinishConfiguration {
    fn default() -> (r: Self) {
        Self {  }
    }
}

impl ServerBoundConfigurationAcknowledgeFinishConfiguration {
    pub fn id(&self) -> (r: i32)
        ensures
            r == 0x03,
    {
        0x03
    }

    pub fn encode(&self, buf: &mut ByteBuf)
        ensures
            final(buf).data@ == old(buf).data@,
            final(buf).read_offset == old(buf).read_offset,
    {
    }

    pub fn decode(buf: &mut ByteBuf) -> (r: Self)
        ensures
            *final(buf) == *old(buf),
    {
        Self {  }
    }
}

// -- clientbound --

/// One known content pack: namespace, id, and version.
pub struct Pack {
    pub namespace: String,
    pub id: String,
    pub version: String,
}

/// The pack's string byte lengths fit the 32-bit signed length prefix.
pub open spec fn pack_wf(p: Pack) -> bool {
    &&& encode_utf8(p.namespace@).len() <= 0x7FFFFFFF
    &&& encode_utf8(p.id@).len() <= 0x7FFFFFFF
    &&& encode_utf8(p.version@).len() <= 0x7FFFFFFF
}

pub open spec fn pack_enc(p: Pack) -> Seq<u8> {
    string_enc(p.namespace@) + string_enc(p.id@) + string_enc(p.version@)
}

pub open spec fn packs_wf(ps: Seq<Pack>) -> bool {
    forall|i: int| 0 <= i < ps.len() ==> pack_wf(#[trigger] ps[i])
}

pub open spec fn packs_body_enc(ps: Seq<Pack>) -> Seq<u8>
    decreases ps.len(),
{
    if ps.len() == 0 {
        Seq::empty()
    } else {
        pack_enc(ps[0]) + packs_body_enc(ps.skip(1))
    }
}

pub open spec fn parse_pack(s: Seq<u8>) -> Result<((Seq<char>, Seq<char>, Seq<char>), int), WireError> {
    match parse_string(s) {
        Err(e) => Err(e),
        Ok((ns, n1)) => match parse_string(s.skip(n1)) {
            Err(e) => Err(e),
            Ok((id, n2)) => match parse_string(s.skip(n1 + n2)) {
                Err(e) => Err(e),
                Ok((ver, n3)) => Ok(((ns, id, ver), n1 + n2 + n3)),
            },
        },
    }
}

pub open spec fn parse_packs_rec(s: Seq<u8>, k: nat) -> Result<
    (Seq<(Seq<char>, Seq<char>, Seq<char>)>, int),
    WireError,
>
    decreases k,
{
    if k == 0 {
        Ok((Seq::empty(), 0))
    } else {
        match parse_pack(s) {
            Err(e) => Err(e),
            Ok((p, n)) => match parse_packs_rec(s.skip(n), (k - 1) as nat) {
                Err(e) => Err(e),
                Ok((rest, m)) => Ok((seq![p] + rest, n + m)),
            },
        }
    }
}

pub open spec fn parse_packs(s: Seq<u8>) -> Result<
    (Seq<(Seq<char>, Seq<char>, Seq<char>)>, int),
    WireError,
> {
    match parse_varint(s) {
        Err(e) => Err(e),
        Ok((cnt, n)) => {
            if cnt < 0 {
                Err(WireError::MalformedVarInt)
            } else {
                match parse_packs_rec(s.skip(n), cnt as nat) {
                    Err(e) => Err(e),
                    Ok((ps, m)) => Ok((ps, n + m)),
                }
            }
        },
    }
}

pub open spec fn pack_views(ps: Seq<Pack>) -> Seq<(Seq<char>, Seq<char>, Seq<char>)> {
    ps.map_values(|p: Pack| (p.namespace@, p.id@, p.version@))
}

pub proof fn lemma_packs_body_enc_snoc(ps: Seq<Pack>, i: int)
    requires
        0 <= i < ps.len(),
    ensures
        packs_body_enc(ps.take(i + 1)) == packs_body_enc(ps.take(i)) + pack_enc(ps[i]),
    decreases i,
{
    if i == 0 {
        assert(ps.take(1) =~= seq![ps[0]]);
        assert(ps.take(1).skip(1) =~= Seq::<Pack>::empty());
        assert(ps.take(0) =~= Seq::<Pack>::empty());
        assert(packs_body_enc(ps.take(1)) =~= pack_enc(ps[0]));
    } else {
        lemma_packs_body_enc_snoc(ps.skip(1), i - 1);
        assert(ps.take(i + 1).skip(1) =~= ps.skip(1).take(i));
        assert(ps.take(i).skip(1) =~= ps.skip(1).take(i - 1));
        assert(ps.take(i + 1)[0] == ps[0] && ps.take(i)[0] == ps[0]);
        assert(ps.skip(1)[i - 1] == ps[i]);
        assert(packs_body_enc(ps.take(i + 1)) =~= packs_body_enc(ps.take(i)) + pack_enc(ps[i]));
    }
}

/// The body encoding of a pack list splits at any index into the
/// encodings of the two halves.
pub proof fn lemma_packs_body_enc_split(ps: Seq<Pack>, i: int)
    requires
        0 <= i <= ps.len(),
    ensures
        packs_body_enc(ps) == packs_body_enc(ps.take(i)) + packs_body_enc(ps.skip(i)),
    decreases i,
{
    if i == 0 {
        assert(ps.take(0) =~= Seq::<Pack>::empty());
        assert(ps.skip(0) =~= ps);
        assert(packs_body_enc(ps) =~= packs_body_enc(ps.take(0)) + packs_body_enc(ps.skip(0)));
    } else {
        lemma_packs_body_enc_split(ps.skip(1), i - 1);
        assert(ps.skip(1).take(i - 1) =~= ps.take(i).skip(1));
        assert(ps.skip(1).skip(i - 1) =~= ps.skip(i));
        assert(ps.take(i)[0] == ps[0]);
        assert(packs_body_enc(ps) =~= packs_body_enc(ps.take(i)) + packs_body_enc(ps.skip(i)));
    }
}

/// The known content packs the server announces: a VarInt count, then each
/// pack's three strings.
pub struct ClientBoundConfigurationClientBoundKnownPacks {
    pub known_packs: Vec<Pack>,
}

impl Default for ClientBoundConfigurationClientBoundKnownPacks {
    fn default() -> (r: Self)
        ensures
            r.known_packs@.len() == 1,
            r.known_packs@[0].namespace@ == "minecraft"@,
            r.known_packs@[0].id@ == "core"@,
            r.known_packs@[0].version@ == "1.21.4"@,
    {
        let mut v: Vec<Pack> = Vec::new();
        v.push(
            Pack {
                namespace: "minecraft".to_owned(),
                id: "core".to_owned(),
                version: "1.21.4".to_owned(),
            },
        );
        Self { known_packs: v }
    }
}

pub open spec fn known_packs_wf(p: ClientBoundConfigurationClientBoundKnownPacks) -> bool {
    &&& p.known_packs@.len() <= 0x7FFFFFFF
    &&& packs_wf(p.known_packs@)
}

pub open spec fn known_packs_body(p: ClientBoundConfigurationClientBoundKnownPacks) -> Seq<u8> {
    varint_enc(p.known_packs@.len() as u32) + packs_body_enc(p.known_packs@)
}

impl ClientBoundConfigurationClientBoundKnownPacks {
    pub fn id(&self) -> (r: i32)
        ensures
            r == 0x0E,
    {
        0x0E
    }

    pub fn encode(&self, buf: &mut ByteBuf)
        requires
            known_packs_wf(*self),
        ensures
            final(buf).data@ == old(buf).data@ + known_packs_body(*self),
            final(buf).read_offset == old(buf).read_offset,
    {
        buf.write_varint(self.known_packs.len() as i32);
        let mut i: usize = 0;
        while i < self.known_packs.len()
            invariant
                i <= self.known_packs@.len(),
                buf.data@ == old(buf).data@ + varint_enc(self.known_packs@.len() as u32)
                    + packs_body_enc(self.known_packs@.take(i as int)),
                buf.read_offset == old(buf).read_offset,
            decreases self.known_packs@.len() - i,
        {
            let p = &self.known_packs[i];
            proof {
                assert(pack_wf(self.known_packs@[i as int]));
            }
            buf.write_string(p.namespace.as_str());
            buf.write_string(p.id.as_str());
            buf.write_string(p.version.as_str());
            i = i + 1;
            proof {
                lemma_packs_body_enc_snoc(self.known_packs@, i - 1);
                assert(buf.data@ =~= old(buf).data@ + varint_enc(self.known_packs@.len() as u32)
                    + packs_body_enc(self.known_packs@.take(i as int)));
            }
        }
        proof {
            assert(self.known_packs@.take(self.known_packs@.len() as int)
                =~= self.known_packs@);
            assert(buf.data@ =~= old(buf).data@ + known_packs_body(*self));
        }
    }

    #[verifier::rlimit(100)]
    #[verifier::spinoff_prover]
    pub fn decode(buf: &mut ByteBuf) -> (r: Result<Self, WireError>)
        requires
            old(buf).wf(),
        ensures
            final(buf).wf(),
            final(buf).data@ == old(buf).data@,
            match r {
                Ok(p) => parse_packs(old(buf).rem()) == Ok::<_, WireError>(
                    (pack_views(p.known_packs@), final(buf).read_offset - old(buf).read_offset),
                ),
                Err(e) => parse_packs(old(buf).rem()) == Err::<
                    (Seq<(Seq<char>, Seq<char>, Seq<char>)>, int),
                    _,
                >(e) && final(buf).read_offset == old(buf).read_offset,
            },
    {
        let start = buf.read_offset;
        let cnt = match buf.read_varint() {
            Ok(v) => v,
            Err(e) => {
                return Err(e);
            },
        };
        let ghost n = buf.read_offset - start;
        proof {
            crate::wire::lemma_parse_varint_consumed(old(buf).rem());
        }
        if cnt < 0 {
            buf.read_offset = start;
            return Err(WireError::MalformedVarInt);
        }
        let cnt = cnt as usize;
        let ghost s_body = old(buf).rem().skip(n);
        proof {
            assert(buf.rem() =~= s_body);
        }
        let mut packs: Vec<Pack> = Vec::new();
        let mut i: usize = 0;
        while i < cnt
            invariant
                i <= cnt,
                buf.wf(),
                buf.data@ == old(buf).data@,
                start + n <= buf.read_offset,
                match parse_packs_rec(buf.rem(), (cnt - i) as nat) {
                    Ok((ps2, m)) => parse_packs_rec(s_body, cnt as nat) == Ok::<_, WireError>(
                        (pack_views(packs@) + ps2, (buf.read_offset - start - n) + m),
                    ),
                    Err(e) => parse_packs_rec(s_body, cnt as nat) == Err::<
                        (Seq<(Seq<char>, Seq<char>, Seq<char>)>, int),
                        _,
                    >(e),
                },
            decreases cnt - i,
        {
            let ghost rem_pre = buf.rem();
            let ghost off_pre = buf.read_offset;
            let pstart = buf.read_offset;
            let ns = match buf.read_string() {
                Ok(v) => v,
                Err(e) => {
                    buf.read_offset = start;
                    return Err(e);
                },
            };
            let ghost m1 = buf.read_offset - pstart;
            proof {
                crate::wire::lemma_parse_string_consumed(rem_pre);
                assert(buf.rem() =~= rem_pre.skip(m1));
            }
            let pid = match buf.read_string() {
                Ok(v) => v,
                Err(e) => {
                    buf.read_offset = start;
                    return Err(e);
                },
            };
            let ghost m2 = buf.read_offset - pstart - m1;
            proof {
                crate::wire::lemma_parse_string_consumed(rem_pre.skip(m1));
                assert(buf.rem() =~= rem_pre.skip(m1 + m2));
            }
            let ver = match buf.read_string() {
                Ok(v) => v,
                Err(e) => {
                    buf.read_offset = start;
                    return Err(e);
                },
            };
            let ghost np = buf.read_offset - off_pre;
            proof {
                crate::wire::lemma_parse_string_consumed(rem_pre.skip(m1 + m2));
                assert(parse_pack(rem_pre) == Ok::<_, WireError>(
                    ((ns@, pid@, ver@), np as int),
                ));
                assert(buf.rem() =~= rem_pre.skip(np as int));
            }
            let ghost packs_pre = packs@;
            packs.push(Pack { namespace: ns, id: pid, version: ver });
            i = i + 1;
            proof {
                assert(pack_views(packs@) =~= pack_views(packs_pre) + seq![
                    (packs@[packs@.len() - 1].namespace@, packs@[packs@.len() - 1].id@,
                    packs@[packs@.len() - 1].version@),
                ]);
                match parse_packs_rec(buf.rem(), (cnt - i) as nat) {
                    Ok((ps2, m)) => {
                        assert(parse_packs_rec(rem_pre, (cnt - i + 1) as nat) == Ok::<
                            _,
                            WireError,
                        >((seq![(ns@, pid@, ver@)] + ps2, np + m)));
                        assert(pack_views(packs@) + ps2 =~= pack_views(packs_pre) + (seq![
                            (ns@, pid@, ver@),
                        ] + ps2));
                    },
                    Err(e) => {
                        assert(parse_packs_rec(rem_pre, (cnt - i + 1) as nat) == Err::<
                            (Seq<(Seq<char>, Seq<char>, Seq<char>)>, int),
                            _,
                        >(e));
                    },
                }
            }
        }
        proof {
            assert(parse_packs_rec(buf.rem(), 0nat) == Ok::<_, WireError>(
                (Seq::<(Seq<char>, Seq<char>, Seq<char>)>::empty(), 0int),
            ));
            assert(pack_views(packs@) + Seq::<(Seq<char>, Seq<char>, Seq<char>)>::empty()
                =~= pack_views(packs@));
        }
        Ok(Self { known_packs: packs })
    }
}

/// One registry entry: a namespaced identifier and an optional
/// pre-serialized tree payload, carried as raw bytes and written verbatim.
pub struct RegistryEntry {
    pub identifier: String,
    pub data: Option<Vec<u8>>,
}

/// The entry's identifier byte length fits the 32-bit signed length prefix.
pub open spec fn entry_wf(e: RegistryEntry) -> bool {
    encode_utf8(e.identifier@).len() <= 0x7FFFFFFF
}

/// An entry on the wire: its identifier, then a boolean-as-byte flag and,
/// when present, the raw payload bytes.
pub open spec fn entry_enc(e: RegistryEntry) -> Seq<u8> {
    string_enc(e.identifier@) + (match e.data {
        Some(d) => seq![bool_byte(true)] + d@,
        None => seq![bool_byte(false)],
    })
}

pub open spec fn entries_wf(es: Seq<RegistryEntry>) -> bool {
    forall|i: int| 0 <= i < es.len() ==> entry_wf(#[trigger] es[i])
}

pub open spec fn entries_enc(es: Seq<RegistryEntry>) -> Seq<u8>
    decreases es.len(),
{
    if es.len() == 0 {
        Seq::empty()
    } else {
        entry_enc(es[0]) + entries_enc(es.skip(1))
    }
}

pub proof fn lemma_entries_enc_snoc(es: Seq<RegistryEntry>, i: int)
    requires
        0 <= i < es.len(),
    ensures
        entries_enc(es.take(i + 1)) == entries_enc(es.take(i)) + entry_enc(es[i]),
    decreases i,
{
    if i == 0 {
        assert(es.take(1) =~= seq![es[0]]);
        assert(es.take(1).skip(1) =~= Seq::<RegistryEntry>::empty());
        assert(es.take(0) =~= Seq::<RegistryEntry>::empty());
        assert(entries_enc(es.take(1)) =~= entry_enc(es[0]));
    } else {
        lemma_entries_enc_snoc(es.skip(1), i - 1);
        assert(es.take(i + 1).skip(1) =~= es.skip(1).take(i));
        assert(es.take(i).skip(1) =~= es.skip(1).take(i - 1));
        assert(es.take(i + 1)[0] == es[0] && es.take(i)[0] == es[0]);
        assert(es.skip(1)[i - 1] == es[i]);
        assert(entries_enc(es.take(i + 1)) =~= entries_enc(es.take(i)) + entry_enc(es[i]));
    }
}

/// The encoding of an entry list splits at any index into the encodings
/// of the two halves.
pub proof fn lemma_entries_enc_split(es: Seq<RegistryEntry>, i: int)
    requires
        0 <= i <= es.len(),
    ensures
        entries_enc(es) == entries_enc(es.take(i)) + entries_enc(es.skip(i)),
    decreases i,
{
    if i == 0 {
        assert(es.take(0) =~= Seq::<RegistryEntry>::empty());
        assert(es.skip(0) =~= es);
        assert(entries_enc(es) =~= entries_enc(es.take(0)) + entries_enc(es.skip(0)));
    } else {
        lemma_entries_enc_split(es.skip(1), i - 1);
        assert(es.skip(1).take(i - 1) =~= es.take(i).skip(1));
        assert(es.skip(1).skip(i - 1) =~= es.skip(i));
        assert(es.take(i)[0] == es[0]);
        assert(entries_enc(es) =~= entries_enc(es.take(i)) + entries_enc(es.skip(i)));
    }
}

/// Registry data: the registry's identifier and its entries.
pub struct ClientBoundConfigurationRegistryDataPacket {
    pub identifier: String,
    pub entries: Vec<RegistryEntry>,
}

pub open spec fn registry_data_wf(p: ClientBoundConfigurationRegistryDataPacket) -> bool {
    &&& encode_utf8(p.identifier@).len() <= 0x7FFFFFFF
    &&& p.entries@.len() <= 0x7FFFFFFF
    &&& entries_wf(p.entries@)
}

pub open spec fn registry_data_body(p: ClientBoundConfigurationRegistryDataPacket) -> Seq<u8> {
    string_enc(p.identifier@) + varint_enc(p.entries@.len() as u32) + entries_enc(p.entries@)
}

impl ClientBoundConfigurationRegistryDataPacket {
    pub fn id(&self) -> (r: i32)
        ensures
            r == 0x07,
    {
        0x07
    }

    pub fn encode(&self, buf: &mut ByteBuf)
        requires
            registry_data_wf(*self),
        ensures
            final(buf).data@ == old(buf).data@ + registry_data_body(*self),
            final(buf).read_offset == old(buf).read_offset,
    {
        buf.write_string(self.identifier.as_str());
        buf.write_varint(self.entries.len() as i32);
        let ghost head = old(buf).data@ + string_enc(self.identifier@) + varint_enc(
            self.entries@.len() as u32,
        );
        proof {
            assert(buf.data@ =~= head + entries_enc(self.entries@.take(0int)));
        }
        let mut i: usize = 0;
        while i < self.entries.len()
            invariant
                i <= self.entries@.len(),
                buf.data@ == head + entries_enc(self.entries@.take(i as int)),
                buf.read_offset == old(buf).read_offset,
            decreases self.entries@.len() - i,
        {
            let e = &self.entries[i];
            proof {
                assert(entry_wf(self.entries@[i as int]));
            }
            buf.write_string(e.identifier.as_str());
            match &e.data {
                Some(d) => {
                    buf.write_bool(true);
                    buf.write_buf(d.as_slice());
                },
                None => {
                    buf.write_bool(false);
                },
            }
            i = i + 1;
            proof {
                lemma_entries_enc_snoc(self.entries@, i - 1);
                assert(buf.data@ =~= head + entries_enc(self.entries@.take(i as int)));
            }
        }
        proof {
            assert(self.entries@.take(self.entries@.len() as int) =~= self.entries@);
            assert(buf.data@ =~= old(buf).data@ + registry_data_body(*self));
        }
    }
}

/// The finish-configuration marker: an empty payload.
pub struct ClientBoundConfigurationFinishConfigurationPacket {}

impl Default for ClientBoundConfigurationFinishConfigurationPacket {
    fn default() -> (r: Self) {
        Self {  }
    }
}

impl ClientBoundConfigurationFinishConfigurationPacket {
    pub fn id(&self) -> (r: i32)
        ensures
            r == 0x03,
    {
        0x03
    }

    pub fn encode(&self, buf: &mut ByteBuf)
        ensures
            final(buf).data@ == old(buf).data@,
            final(buf).read_offset == old(buf).read_offset,
    {
    }
}

impl ServerConfigurationPacketFactory {
    pub fn from_id(&self, id: i32) -> (r: Option<EServerConfigurationPacket>)
        ensures
            r == if id == 0x03 {
                Some(
                    EServerConfigurationPacket::ServerBoundConfigurationAcknowledgeFinishConfiguration,
                )
            } else {
                None::<EServerConfigurationPacket>
            },
    {
        match id {
            0x03 => Some(
                EServerConfigurationPacket::ServerBoundConfigurationAcknowledgeFinishConfiguration,
            ),
            _ => None,
        }
    }

    /// Decodes the packet with the given id; the only legal id in the
    /// Configuration phase is 0x03 (acknowledge finish configuration).
    pub fn decode(&self, id: i32, buf: &mut ByteBuf) -> (r: Result<
        ServerBoundConfigurationAcknowledgeFinishConfiguration,
        WireError,
    >)
        requires
            old(buf).wf(),
        ensures
            final(buf).wf(),
            final(buf).data@ == old(buf).data@,
            final(buf).read_offset == old(buf).read_offset,
            if id == 0x03 {
                r is Ok
            } else {
                r == Err::<ServerBoundConfigurationAcknowledgeFinishConfiguration, _>(
                    WireError::UnknownPacketId(3, id),
                )
            },
    {
        if id == 0x03 {
            Ok(ServerBoundConfigurationAcknowledgeFinishConfiguration::decode(buf))
        } else {
            Err(WireError::UnknownPacketId(3, id))
        }
    }
}

} // verus!
