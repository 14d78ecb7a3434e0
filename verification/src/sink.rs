//! What the engine is asked to do for an effect.
//!
//! Rows and index entries stand under the bytes of their keys. Records
//! stand under their names, written as MessagePack strings: a header that
//! tells the length in bytes, then the bytes of the name in UTF-8. What is
//! written under a key is handed on as it is; its bytes are made where the
//! engine is called.

use crate::byte_order::{be_bytes, lemma_be_bytes_len, lemma_be_round_trip, pow256};
use crate::key_order::lemma_utf8_injective;
use crate::entity::{
    DatabaseServerStored, DatabaseServerStoredView, DomainStored, DomainStoredView, TableStored,
    TableStoredView,
};
use crate::error::{DbError, DbResult};
use crate::key::OndoKey;
use crate::key_codec::encode_key;
use crate::reference::effect::{
    DatabaseServerStoredEffect, DatabaseServerStoredEffectView, DomainStoredEffect,
    DomainStoredEffectView, Effect, EffectView, TableStoredEffect, TableStoredEffectView,
    TableValueEffect, TableValueEffectView,
};
use crate::value::{TableValue, TableValueView};
use vstd::prelude::*;
use vstd::utf8::encode_utf8;

verus! {

/// The error that the MessagePack encoder reports.
#[verifier::external_type_specification]
#[verifier::external_body]
pub struct ExEncodeError(rmp_serde::encode::Error);

/// What is written under a key.
#[derive(Debug, PartialEq, Eq)]
pub enum Payload {
    Value(TableValue),
    Table(TableStored),
    Domain(DomainStored),
    Server(DatabaseServerStored),
}

/// One call on the engine: column family, key, what is written.
#[derive(Debug, PartialEq, Eq)]
pub enum EngineCall {
    CreateCf(String),
    DropCf(String),
    Put(String, Vec<u8>, Payload),
    Delete(String, Vec<u8>),
}

/// The mathematical value of a [`Payload`].
pub enum PayloadView {
    Value(TableValueView),
    Table(TableStoredView),
    Domain(DomainStoredView),
    Server(DatabaseServerStoredView),
}

/// The mathematical value of an [`EngineCall`].
pub enum EngineCallView {
    CreateCf(Seq<char>),
    DropCf(Seq<char>),
    Put(Seq<char>, Seq<u8>, PayloadView),
    Delete(Seq<char>, Seq<u8>),
}

impl DeepView for Payload {
    type V = PayloadView;

    open spec fn deep_view(&self) -> PayloadView {
        match self {
            Payload::Value(value) => PayloadView::Value(value@),
            Payload::Table(stored) => PayloadView::Table(stored@),
            Payload::Domain(stored) => PayloadView::Domain(stored@),
            Payload::Server(stored) => PayloadView::Server(stored@),
        }
    }
}

impl View for Payload {
    type V = PayloadView;

    open spec fn view(&self) -> PayloadView {
        self.deep_view()
    }
}

impl DeepView for EngineCall {
    type V = EngineCallView;

    open spec fn deep_view(&self) -> EngineCallView {
        match self {
            EngineCall::CreateCf(cf) => EngineCallView::CreateCf(cf@),
            EngineCall::DropCf(cf) => EngineCallView::DropCf(cf@),
            EngineCall::Put(cf, key, payload) => EngineCallView::Put(cf@, key@, payload@),
            EngineCall::Delete(cf, key) => EngineCallView::Delete(cf@, key@),
        }
    }
}

impl View for EngineCall {
    type V = EngineCallView;

    open spec fn view(&self) -> EngineCallView {
        self.deep_view()
    }
}

/// The header of a MessagePack string of `len` bytes: the length in the
/// marker itself, or a marker and the length in one, two or four
/// big-endian bytes.
pub open spec fn text_header(len: nat) -> Seq<u8> {
    if len < 32 {
        seq![(0xa0 + len) as u8]
    } else if len < 256 {
        seq![0xd9u8, len as u8]
    } else if len < 65536 {
        seq![0xdau8] + be_bytes(len, 2)
    } else {
        seq![0xdbu8] + be_bytes(len, 4)
    }
}

/// The bytes under which the record called `name` stands.
pub open spec fn name_key_bytes(name: Seq<char>) -> Seq<u8> {
    text_header(encode_utf8(name).len()) + encode_utf8(name)
}

/// A name whose bytes can be counted in a MessagePack header.
pub open spec fn name_fits(name: Seq<char>) -> bool {
    encode_utf8(name).len() <= 0xffff_ffff
}

/// The call that an effect asks for.
pub open spec fn engine_call_of(effect: EffectView) -> EngineCallView {
    match effect {
        EffectView::CreateCf(cf) => EngineCallView::CreateCf(cf),
        EffectView::DeleteCf(cf) => EngineCallView::DropCf(cf),
        EffectView::TableValueEffect(TableValueEffectView::Put(cf, key, value)) => {
            EngineCallView::Put(cf, encode_key(key), PayloadView::Value(value))
        },
        EffectView::TableValueEffect(TableValueEffectView::Delete(cf, key)) => {
            EngineCallView::Delete(cf, encode_key(key))
        },
        EffectView::TableStoredEffect(TableStoredEffectView::Put(cf, name, stored)) => {
            EngineCallView::Put(cf, name_key_bytes(name), PayloadView::Table(stored))
        },
        EffectView::TableStoredEffect(TableStoredEffectView::Delete(cf, name)) => {
            EngineCallView::Delete(cf, name_key_bytes(name))
        },
        EffectView::DomainStoredEffect(DomainStoredEffectView::Put(cf, name, stored)) => {
            EngineCallView::Put(cf, name_key_bytes(name), PayloadView::Domain(stored))
        },
        EffectView::DomainStoredEffect(DomainStoredEffectView::Delete(cf, name)) => {
            EngineCallView::Delete(cf, name_key_bytes(name))
        },
        EffectView::DatabaseServerStoredEffect(
            DatabaseServerStoredEffectView::Put(cf, name, stored),
        ) => EngineCallView::Put(cf, name_key_bytes(name), PayloadView::Server(stored)),
        EffectView::DatabaseServerStoredEffect(
            DatabaseServerStoredEffectView::Delete(cf, name),
        ) => EngineCallView::Delete(cf, name_key_bytes(name)),
    }
}

/// The name under which an effect reads or writes a record, if it is an
/// effect on a record.
pub open spec fn record_name(effect: EffectView) -> Option<Seq<char>> {
    match effect {
        EffectView::TableStoredEffect(TableStoredEffectView::Put(_, name, _)) => Some(name),
        EffectView::TableStoredEffect(TableStoredEffectView::Delete(_, name)) => Some(name),
        EffectView::DomainStoredEffect(DomainStoredEffectView::Put(_, name, _)) => Some(name),
        EffectView::DomainStoredEffect(DomainStoredEffectView::Delete(_, name)) => Some(name),
        EffectView::DatabaseServerStoredEffect(DatabaseServerStoredEffectView::Put(_, name, _)) => {
            Some(name)
        },
        EffectView::DatabaseServerStoredEffect(DatabaseServerStoredEffectView::Delete(_, name)) => {
            Some(name)
        },
        _ => None,
    }
}

/// `rmp_serde::to_vec` on a string of fewer than 2^32 bytes: where it
/// succeeds, the bytes are the MessagePack string, header and UTF-8. It
/// fails where memory for the bytes cannot be had.
#[verifier::external_body]
fn msgpack_text(text: &str) -> (r: Result<Vec<u8>, rmp_serde::encode::Error>)
    requires
        name_fits(text@),
    ensures
        r matches Ok(bytes) ==> bytes@ == name_key_bytes(text@),
{
    rmp_serde::to_vec(text)
}

/// The text that `Display` gives for an `rmp_serde::encode::Error`.
#[verifier::external_body]
fn encode_error_text(error: &rmp_serde::encode::Error) -> String {
    error.to_string()
}

/// The key of a record, given what the encoder made of its name.
pub fn name_key_from(encoded: Result<Vec<u8>, rmp_serde::encode::Error>) -> (r: DbResult<Vec<u8>>)
    ensures
        encoded matches Ok(bytes) ==> r == Ok::<Vec<u8>, DbError>(bytes),
        encoded is Err ==> r is Err && r->Err_0 is SerializationError,
{
    match encoded {
        Ok(bytes) => Ok(bytes),
        Err(error) => Err(DbError::SerializationError(encode_error_text(&error))),
    }
}

/// The bytes under which the record called `name` stands. Fails with
/// `SerializationError` for a name of 2^32 bytes or more, and where the
/// encoder fails.
pub fn name_key(name: &str) -> (r: DbResult<Vec<u8>>)
    ensures
        r matches Ok(bytes) ==> name_fits(name@) && bytes@ == name_key_bytes(name@),
        r matches Err(e) ==> e is SerializationError,
        !name_fits(name@) ==> r is Err,
{
    if name.as_bytes().len() > 0xffff_ffff {
        return Err(DbError::SerializationError(String::from_str("name is too long")));
    }
    name_key_from(msgpack_text(name))
}

/// The call on the engine that `effect` asks for. Fails with
/// `SerializationError` where the name of a record cannot be made a key.
pub fn engine_call(effect: &Effect) -> (r: DbResult<EngineCall>)
    ensures
        r matches Ok(call) ==> call@ == engine_call_of(effect@),
        r matches Err(e) ==> e is SerializationError && record_name(effect@) is Some,
        record_name(effect@) matches Some(name) && !name_fits(name) ==> r is Err,
{
    match effect {
        Effect::CreateCf(cf) => Ok(EngineCall::CreateCf(cf.clone())),
        Effect::DeleteCf(cf) => Ok(EngineCall::DropCf(cf.clone())),
        Effect::TableValueEffect(TableValueEffect::Put(cf, key, value)) => Ok(
            EngineCall::Put(cf.clone(), key.encode(), Payload::Value(value.clone())),
        ),
        Effect::TableValueEffect(TableValueEffect::Delete(cf, key)) => Ok(
            EngineCall::Delete(cf.clone(), key.encode()),
        ),
        Effect::TableStoredEffect(TableStoredEffect::Put(cf, name, stored)) => {
            match name_key(name.as_str()) {
                Ok(key) => Ok(EngineCall::Put(cf.clone(), key, Payload::Table(stored.clone()))),
                Err(e) => Err(e),
            }
        },
        Effect::TableStoredEffect(TableStoredEffect::Delete(cf, name)) => {
            match name_key(name.as_str()) {
                Ok(key) => Ok(EngineCall::Delete(cf.clone(), key)),
                Err(e) => Err(e),
            }
        },
        Effect::DomainStoredEffect(DomainStoredEffect::Put(cf, name, stored)) => {
            match name_key(name.as_str()) {
                Ok(key) => Ok(EngineCall::Put(cf.clone(), key, Payload::Domain(stored.clone()))),
                Err(e) => Err(e),
            }
        },
        Effect::DomainStoredEffect(DomainStoredEffect::Delete(cf, name)) => {
            match name_key(name.as_str()) {
                Ok(key) => Ok(EngineCall::Delete(cf.clone(), key)),
                Err(e) => Err(e),
            }
        },
        Effect::DatabaseServerStoredEffect(DatabaseServerStoredEffect::Put(cf, name, stored)) => {
            match name_key(name.as_str()) {
                Ok(key) => Ok(EngineCall::Put(cf.clone(), key, Payload::Server(stored.clone()))),
                Err(e) => Err(e),
            }
        },
        Effect::DatabaseServerStoredEffect(DatabaseServerStoredEffect::Delete(cf, name)) => {
            match name_key(name.as_str()) {
                Ok(key) => Ok(EngineCall::Delete(cf.clone(), key)),
                Err(e) => Err(e),
            }
        },
    }
}

/// Different names stand under different bytes.
pub proof fn lemma_name_keys_differ(a: Seq<char>, b: Seq<char>)
    requires
        name_fits(a),
        name_fits(b),
        name_key_bytes(a) == name_key_bytes(b),
    ensures
        a == b,
{
    let ua = encode_utf8(a);
    let ub = encode_utf8(b);
    let ha = text_header(ua.len());
    let hb = text_header(ub.len());
    let ka = name_key_bytes(a);
    let kb = name_key_bytes(b);
    assert(pow256(2) == 65536 && pow256(4) == 0x1_0000_0000) by {
        reveal_with_fuel(pow256, 5);
    }
    lemma_be_bytes_len(ua.len(), 2);
    lemma_be_bytes_len(ua.len(), 4);
    lemma_be_bytes_len(ub.len(), 2);
    lemma_be_bytes_len(ub.len(), 4);
    assert(ka[0] == ha[0] && kb[0] == hb[0]);
    assert(ua.len() == ub.len()) by {
        if 32 <= ua.len() < 256 {
            assert(ka[1] == ha[1]);
            if 32 <= ub.len() < 256 {
                assert(kb[1] == hb[1]);
            }
        } else if 256 <= ua.len() < 65536 {
            if 256 <= ub.len() < 65536 {
                assert(ka.subrange(1, 3) =~= be_bytes(ua.len(), 2));
                assert(kb.subrange(1, 3) =~= be_bytes(ub.len(), 2));
                lemma_be_round_trip(ua.len(), 2);
                lemma_be_round_trip(ub.len(), 2);
            }
        } else if 65536 <= ua.len() {
            if 65536 <= ub.len() {
                assert(ka.subrange(1, 5) =~= be_bytes(ua.len(), 4));
                assert(kb.subrange(1, 5) =~= be_bytes(ub.len(), 4));
                lemma_be_round_trip(ua.len(), 4);
                lemma_be_round_trip(ub.len(), 4);
            }
        }
    }
    assert(ua =~= ka.skip(ha.len() as int));
    assert(ub =~= kb.skip(hb.len() as int));
    lemma_utf8_injective(a, b);
}

} // verus!
