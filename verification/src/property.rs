//! Signed-property lists: the (name, value, optional signature) entries
//! carried by a login-success packet.
//!
//! On the wire a property list is a VarInt count followed by the entries;
//! each entry is two length-prefixed strings, a boolean flag, and, when the
//! flag is set, the signature string.

use crate::bytebuf::ByteBuf;
use crate::wire::{
    bool_byte, parse_bool, parse_string, parse_varint, string_enc, u32_of_i32, varint_enc,
    WireError,
};
use vstd::prelude::*;
use vstd::utf8::encode_utf8;

verus! {

/// A signed property: a name, a value, and an optional signature.
#[derive(Debug, Clone, PartialEq, Eq)]
pub struct Property {
    pub name: String,
    pub value: String,
    pub signature: Option<String>,
}

/// The mathematical model of a property: its strings as character
/// sequences.
pub struct PropertyView {
    pub name: Seq<char>,
    pub value: Seq<char>,
    pub signature: Option<Seq<char>>,
}

impl View for Property {
    type V = PropertyView;

    open spec fn view(&self) -> PropertyView {
        PropertyView {
            name: self.name@,
            value: self.value@,
            signature: match self.signature {
                Some(s) => Some(s@),
                None => None,
            },
        }
    }
}

/// The byte lengths of the strings fit the 32-bit signed length prefix.
pub open spec fn property_wf(p: PropertyView) -> bool {
    &&& encode_utf8(p.name).len() <= 0x7FFFFFFF
    &&& encode_utf8(p.value).len() <= 0x7FFFFFFF
    &&& (p.signature matches Some(sig) ==> encode_utf8(sig).len() <= 0x7FFFFFFF)
}

pub open spec fn property_enc(p: PropertyView) -> Seq<u8> {
    string_enc(p.name) + string_enc(p.value) + (match p.signature {
        Some(sig) => seq![bool_byte(true)] + string_enc(sig),
        None => seq![bool_byte(false)],
    })
}

pub open spec fn parse_property(s: Seq<u8>) -> Result<(PropertyView, int), WireError> {
    match parse_string(s) {
        Err(e) => Err(e),
        Ok((name, n1)) => match parse_string(s.skip(n1)) {
            Err(e) => Err(e),
            Ok((value, n2)) => match parse_bool(s.skip(n1 + n2)) {
                Err(e) => Err(e),
                Ok((has_sig, n3)) => {
                    if has_sig {
                        match parse_string(s.skip(n1 + n2 + n3)) {
                            Err(e) => Err(e),
                            Ok((sig, n4)) => Ok(
                                (
                                    PropertyView { name, value, signature: Some(sig) },
                                    n1 + n2 + n3 + n4,
                                ),
                            ),
                        }
                    } else {
                        Ok((PropertyView { name, value, signature: None }, n1 + n2 + n3))
                    }
                },
            },
        },
    }
}

/// The views of a sequence of properties.
pub open spec fn props_views(ps: Seq<Property>) -> Seq<PropertyView> {
    ps.map_values(|p: Property| p@)
}

pub open spec fn props_wf(ps: Seq<PropertyView>) -> bool {
    forall|i: int| 0 <= i < ps.len() ==> property_wf(#[trigger] ps[i])
}

pub open spec fn properties_body_enc(ps: Seq<PropertyView>) -> Seq<u8>
    decreases ps.len(),
{
    if ps.len() == 0 {
        Seq::empty()
    } else {
        property_enc(ps[0]) + properties_body_enc(ps.skip(1))
    }
}

/// A property list on the wire: a VarInt count, then the entries in order.
pub open spec fn properties_enc(ps: Seq<PropertyView>) -> Seq<u8> {
    varint_enc(ps.len() as u32) + properties_body_enc(ps)
}

pub open spec fn parse_properties_rec(s: Seq<u8>, k: nat) -> Result<
    (Seq<PropertyView>, int),
    WireError,
>
    decreases k,
{
    if k == 0 {
        Ok((Seq::empty(), 0))
    } else {
        match parse_property(s) {
            Err(e) => Err(e),
            Ok((p, n)) => match parse_properties_rec(s.skip(n), (k - 1) as nat) {
                Err(e) => Err(e),
                Ok((rest, m)) => Ok((seq![p] + rest, n + m)),
            },
        }
    }
}

pub open spec fn parse_properties(s: Seq<u8>) -> Result<(Seq<PropertyView>, int), WireError> {
    match parse_varint(s) {
        Err(e) => Err(e),
        Ok((cnt, n)) => {
            if cnt < 0 {
                Err(WireError::MalformedVarInt)
            } else {
                match parse_properties_rec(s.skip(n), cnt as nat) {
                    Err(e) => Err(e),
                    Ok((ps, m)) => Ok((ps, n + m)),
                }
            }
        },
    }
}

/// Property round trip: parsing the encoding of any well-formed property
/// yields the property back, whatever bytes follow it.
pub proof fn lemma_property_round_trip(p: PropertyView, rest: Seq<u8>)
    requires
        property_wf(p),
    ensures
        parse_property(property_enc(p) + rest) == Ok::<_, WireError>(
            (p, property_enc(p).len() as int),
        ),
{
    let e1 = string_enc(p.name);
    let e2 = string_enc(p.value);
    let s = property_enc(p) + rest;
    match p.signature {
        Some(sig) => {
            let e3 = string_enc(sig);
            assert(s =~= e1 + (e2 + (seq![1u8] + (e3 + rest))));
            crate::wire::lemma_string_round_trip(p.name, e2 + (seq![1u8] + (e3 + rest)));
            assert(s.skip(e1.len() as int) =~= e2 + (seq![1u8] + (e3 + rest)));
            crate::wire::lemma_string_round_trip(p.value, seq![1u8] + (e3 + rest));
            assert(s.skip(e1.len() + e2.len() as int) =~= seq![1u8] + (e3 + rest));
            assert(parse_bool(seq![1u8] + (e3 + rest)) == Ok::<_, WireError>((true, 1int)));
            assert(s.skip(e1.len() + e2.len() + 1int) =~= e3 + rest);
            crate::wire::lemma_string_round_trip(sig, rest);
            assert(property_enc(p).len() == e1.len() + e2.len() + 1 + e3.len());
        },
        None => {
            assert(s =~= e1 + (e2 + (seq![0u8] + rest)));
            crate::wire::lemma_string_round_trip(p.name, e2 + (seq![0u8] + rest));
            assert(s.skip(e1.len() as int) =~= e2 + (seq![0u8] + rest));
            crate::wire::lemma_string_round_trip(p.value, seq![0u8] + rest);
            assert(s.skip(e1.len() + e2.len() as int) =~= seq![0u8] + rest);
            assert(parse_bool(seq![0u8] + rest) == Ok::<_, WireError>((false, 1int)));
            assert(property_enc(p).len() == e1.len() + e2.len() + 1);
        },
    }
}

/// A successfully parsed property consumes between one byte and the whole
/// input.
pub proof fn lemma_parse_property_consumed(s: Seq<u8>)
    ensures
        parse_property(s) matches Ok((p, n)) ==> 1 <= n <= s.len(),
{
    crate::wire::lemma_parse_string_consumed(s);
    if let Ok((name, n1)) = parse_string(s) {
        crate::wire::lemma_parse_string_consumed(s.skip(n1));
        if let Ok((value, n2)) = parse_string(s.skip(n1)) {
            if let Ok((has_sig, n3)) = parse_bool(s.skip(n1 + n2)) {
                if has_sig {
                    crate::wire::lemma_parse_string_consumed(s.skip(n1 + n2 + n3));
                }
            }
        }
    }
}

/// Appending one property to a list appends its encoding to the list's
/// body encoding.
pub proof fn lemma_properties_body_enc_snoc(ps: Seq<PropertyView>, i: int)
    requires
        0 <= i < ps.len(),
    ensures
        properties_body_enc(ps.take(i + 1)) == properties_body_enc(ps.take(i)) + property_enc(
            ps[i],
        ),
    decreases i,
{
    if i == 0 {
        assert(ps.take(1) =~= seq![ps[0]]);
        assert(ps.take(1)[0] == ps[0]);
        assert(ps.take(1).skip(1) =~= Seq::<PropertyView>::empty());
        assert(ps.take(0) =~= Seq::<PropertyView>::empty());
        assert(properties_body_enc(Seq::<PropertyView>::empty()) == Seq::<u8>::empty());
        assert(properties_body_enc(ps.take(1)) == property_enc(ps.take(1)[0])
            + properties_body_enc(ps.take(1).skip(1)));
        assert(properties_body_enc(ps.take(1)) =~= property_enc(ps[0]));
    } else {
        lemma_properties_body_enc_snoc(ps.skip(1), i - 1);
        assert(ps.take(i + 1).skip(1) =~= ps.skip(1).take(i));
        assert(ps.take(i).skip(1) =~= ps.skip(1).take(i - 1));
        assert(ps.take(i + 1)[0] == ps[0] && ps.take(i)[0] == ps[0]);
        assert(ps.skip(1)[i - 1] == ps[i]);
        assert(properties_body_enc(ps.take(i + 1)) == property_enc(ps[0])
            + properties_body_enc(ps.skip(1).take(i)));
        assert(properties_body_enc(ps.take(i)) == property_enc(ps[0]) + properties_body_enc(
            ps.skip(1).take(i - 1),
        ));
        assert(properties_body_enc(ps.take(i + 1)) =~= properties_body_enc(ps.take(i))
            + property_enc(ps[i]));
    }
}

/// The body encoding of a property list splits at any index into the
/// encodings of the two halves.
pub proof fn lemma_properties_body_enc_split(ps: Seq<PropertyView>, i: int)
    requires
        0 <= i <= ps.len(),
    ensures
        properties_body_enc(ps) == properties_body_enc(ps.take(i)) + properties_body_enc(
            ps.skip(i),
        ),
    decreases i,
{
    if i == 0 {
        assert(ps.take(0) =~= Seq::<PropertyView>::empty());
        assert(ps.skip(0) =~= ps);
        assert(properties_body_enc(ps) =~= properties_body_enc(ps.take(0))
            + properties_body_enc(ps.skip(0)));
    } else {
        lemma_properties_body_enc_split(ps.skip(1), i - 1);
        assert(ps.skip(1).take(i - 1) =~= ps.take(i).skip(1));
        assert(ps.skip(1).skip(i - 1) =~= ps.skip(i));
        assert(ps.take(i)[0] == ps[0]);
        assert(properties_body_enc(ps) =~= properties_body_enc(ps.take(i))
            + properties_body_enc(ps.skip(i)));
    }
}

/// Property-list round trip: parsing the encoding of any well-formed list
/// of properties yields the list back, in order and content exactly,
/// whatever bytes follow it.
pub proof fn lemma_properties_round_trip(ps: Seq<PropertyView>, rest: Seq<u8>)
    requires
        props_wf(ps),
        ps.len() <= 0x7FFFFFFF,
    ensures
        parse_properties(properties_enc(ps) + rest) == Ok::<_, WireError>(
            (ps, properties_enc(ps).len() as int),
        ),
{
    let cnt = ps.len() as u32;
    let s = properties_enc(ps) + rest;
    assert(s =~= varint_enc(cnt) + (properties_body_enc(ps) + rest));
    crate::wire::lemma_parse_varint_enc(cnt, properties_body_enc(ps) + rest);
    let n = varint_enc(cnt).len() as int;
    assert(crate::wire::i32_of_u32(cnt) == ps.len());
    assert(s.skip(n) =~= properties_body_enc(ps) + rest);
    lemma_properties_rec_round_trip(ps, rest);
}

proof fn lemma_properties_rec_round_trip(ps: Seq<PropertyView>, rest: Seq<u8>)
    requires
        props_wf(ps),
    ensures
        parse_properties_rec(properties_body_enc(ps) + rest, ps.len()) == Ok::<_, WireError>(
            (ps, properties_body_enc(ps).len() as int),
        ),
    decreases ps.len(),
{
    if ps.len() == 0 {
        assert(properties_body_enc(ps) =~= Seq::<u8>::empty());
        assert(ps =~= Seq::<PropertyView>::empty());
    } else {
        let s = properties_body_enc(ps) + rest;
        let e0 = property_enc(ps[0]);
        assert(s =~= e0 + (properties_body_enc(ps.skip(1)) + rest));
        lemma_property_round_trip(ps[0], properties_body_enc(ps.skip(1)) + rest);
        assert(s.skip(e0.len() as int) =~= properties_body_enc(ps.skip(1)) + rest);
        assert(props_wf(ps.skip(1))) by {
            assert(forall|i: int|
                0 <= i < ps.skip(1).len() ==> #[trigger] ps.skip(1)[i] == ps[i + 1]);
        }
        lemma_properties_rec_round_trip(ps.skip(1), rest);
        assert(seq![ps[0]] + ps.skip(1) =~= ps);
    }
}

impl ByteBuf {
    pub fn write_property(&mut self, prop: &Property)
        requires
            property_wf(prop@),
        ensures
            final(self).data@ == old(self).data@ + property_enc(prop@),
            final(self).read_offset == old(self).read_offset,
    {
        self.write_string(prop.name.as_str());
        self.write_string(prop.value.as_str());
        match &prop.signature {
            Some(sig) => {
                self.write_bool(true);
                self.write_string(sig.as_str());
            },
            None => {
                self.write_bool(false);
            },
        }
        proof {
            assert(self.data@ =~= old(self).data@ + property_enc(prop@));
        }
    }

    pub fn read_property(&mut self) -> (r: Result<Property, WireError>)
        requires
            old(self).wf(),
        ensures
            final(self).wf(),
            final(self).data@ == old(self).data@,
            match r {
                Ok(p) => parse_property(old(self).rem()) == Ok::<_, WireError>(
                    (p@, final(self).read_offset - old(self).read_offset),
                ),
                Err(e) => parse_property(old(self).rem()) == Err::<(PropertyView, int), _>(e)
                    && final(self).read_offset == old(self).read_offset,
            },
    {
        let start = self.read_offset;
        let name = match self.read_string() {
            Ok(v) => v,
            Err(e) => {
                return Err(e);
            },
        };
        let ghost n1 = self.read_offset - start;
        proof {
            crate::wire::lemma_parse_string_consumed(old(self).rem());
            assert(self.rem() =~= old(self).rem().skip(n1));
        }
        let value = match self.read_string() {
            Ok(v) => v,
            Err(e) => {
                self.read_offset = start;
                return Err(e);
            },
        };
        let ghost n2 = self.read_offset - start - n1;
        proof {
            crate::wire::lemma_parse_string_consumed(old(self).rem().skip(n1));
            assert(self.rem() =~= old(self).rem().skip(n1 + n2));
        }
        let has_sig = match self.read_bool() {
            Ok(v) => v,
            Err(e) => {
                self.read_offset = start;
                return Err(e);
            },
        };
        proof {
            assert(self.rem() =~= old(self).rem().skip(n1 + n2 + 1));
        }
        if has_sig {
            let sig = match self.read_string() {
                Ok(v) => v,
                Err(e) => {
                    self.read_offset = start;
                    return Err(e);
                },
            };
            Ok(Property { name, value, signature: Some(sig) })
        } else {
            Ok(Property { name, value, signature: None })
        }
    }

    pub fn write_properties(&mut self, props: &[Property])
        requires
            props@.len() <= 0x7FFFFFFF,
            props_wf(props_views(props@)),
        ensures
            final(self).data@ == old(self).data@ + properties_enc(props_views(props@)),
            final(self).read_offset == old(self).read_offset,
    {
        let ghost views = props_views(props@);
        self.write_varint(props.len() as i32);
        proof {
            assert(u32_of_i32(props@.len() as i32) == views.len() as u32);
        }
        let mut i: usize = 0;
        while i < props.len()
            invariant
                i <= props@.len(),
                self.data@ == old(self).data@ + varint_enc(views.len() as u32)
                    + properties_body_enc(views.take(i as int)),
                self.read_offset == old(self).read_offset,
            decreases props@.len() - i,
        {
            proof {
                assert(property_wf(views[i as int]));
                assert(props@[i as int]@ == views[i as int]);
            }
            self.write_property(&props[i]);
            i = i + 1;
            proof {
                lemma_properties_body_enc_snoc(views, i - 1);
                assert(self.data@ =~= old(self).data@ + varint_enc(views.len() as u32)
                    + properties_body_enc(views.take(i as int)));
            }
        }
        proof {
            assert(views.take(views.len() as int) =~= views);
            assert(self.data@ =~= old(self).data@ + properties_enc(views));
        }
    }

    #[verifier::rlimit(100)]
    #[verifier::spinoff_prover]
    pub fn read_properties(&mut self) -> (r: Result<Vec<Property>, WireError>)
        requires
            old(self).wf(),
        ensures
            final(self).wf(),
            final(self).data@ == old(self).data@,
            match r {
                Ok(ps) => parse_properties(old(self).rem()) == Ok::<_, WireError>(
                    (props_views(ps@), final(self).read_offset - old(self).read_offset),
                ),
                Err(e) => parse_properties(old(self).rem()) == Err::<(Seq<PropertyView>, int), _>(
                    e,
                ) && final(self).read_offset == old(self).read_offset,
            },
    {
        let start = self.read_offset;
        let cnt = match self.read_varint() {
            Ok(v) => v,
            Err(e) => {
                return Err(e);
            },
        };
        let ghost n = self.read_offset - start;
        proof {
            crate::wire::lemma_parse_varint_consumed(old(self).rem());
        }
        if cnt < 0 {
            self.read_offset = start;
            return Err(WireError::MalformedVarInt);
        }
        let cnt = cnt as usize;
        let ghost s_body = old(self).rem().skip(n);
        proof {
            assert(self.rem() =~= s_body);
        }
        let mut out: Vec<Property> = Vec::new();
        let mut i: usize = 0;
        while i < cnt
            invariant
                i <= cnt,
                self.wf(),
                self.data@ == old(self).data@,
                start + n <= self.read_offset,
                out@.len() == i,
                match parse_properties_rec(self.rem(), (cnt - i) as nat) {
                    Ok((ps2, m)) => parse_properties_rec(s_body, cnt as nat) == Ok::<
                        _,
                        WireError,
                    >((props_views(out@) + ps2, (self.read_offset - start - n) + m)),
                    Err(e) => parse_properties_rec(s_body, cnt as nat) == Err::<
                        (Seq<PropertyView>, int),
                        _,
                    >(e),
                },
            decreases cnt - i,
        {
            let ghost rem_pre = self.rem();
            let ghost off_pre = self.read_offset;
            let p = match self.read_property() {
                Ok(v) => v,
                Err(e) => {
                    proof {
                        assert(parse_properties_rec(rem_pre, (cnt - i) as nat) == Err::<
                            (Seq<PropertyView>, int),
                            _,
                        >(e));
                    }
                    self.read_offset = start;
                    return Err(e);
                },
            };
            let ghost np = self.read_offset - off_pre;
            proof {
                lemma_parse_property_consumed(rem_pre);
                assert(self.rem() =~= rem_pre.skip(np));
            }
            let ghost out_pre = out@;
            out.push(p);
            i = i + 1;
            proof {
                assert(props_views(out@) =~= props_views(out_pre) + seq![p@]);
                match parse_properties_rec(self.rem(), (cnt - i) as nat) {
                    Ok((ps2, m)) => {
                        assert(parse_properties_rec(rem_pre, (cnt - i + 1) as nat) == Ok::<
                            _,
                            WireError,
                        >((seq![p@] + ps2, np + m)));
                        assert(props_views(out@) + ps2 =~= props_views(out_pre) + (seq![p@]
                            + ps2));
                    },
                    Err(e) => {
                        assert(parse_properties_rec(rem_pre, (cnt - i + 1) as nat) == Err::<
                            (Seq<PropertyView>, int),
                            _,
                        >(e));
                    },
                }
            }
        }
        proof {
            assert(parse_properties_rec(self.rem(), 0nat) == Ok::<_, WireError>(
                (Seq::<PropertyView>::empty(), 0int),
            ));
            assert(props_views(out@) + Seq::<PropertyView>::empty() =~= props_views(out@));
        }
        Ok(out)
    }
}

} // verus!
