//! The administrative configuration entry of a genesis snapshot.
//!
//! A fresh store is initialized with one setting: at a fixed address, a
//! protobuf-encoded setting message whose single entry maps the
//! administrators' setting key to the admin keys joined with commas.
//! The wire encoding is stated here byte for byte: a setting is one
//! length-delimited entry field, and an entry is its key and value as
//! length-delimited string fields, each omitted when empty.

use vstd::prelude::*;
use vstd::string::StrSliceExecFns;
use vstd::string::StringExecFns;
use vstd::string::StringSliceAdditionalSpecFns;

use crate::changes::{ChangeView, StateChange};

verus! {

/// Protobuf base-128 varint encoding of a length.
pub open spec fn varint(n: nat) -> Seq<u8>
    decreases n,
{
    if n < 128 {
        seq![n as u8]
    } else {
        seq![(n % 128 + 128) as u8] + varint(n / 128)
    }
}

/// A length-delimited protobuf field: tag byte, payload length, payload.
pub open spec fn len_delimited(tag: u8, payload: Seq<u8>) -> Seq<u8> {
    seq![tag] + varint(payload.len()) + payload
}

/// A singular string field, omitted when empty.
pub open spec fn string_field(tag: u8, payload: Seq<u8>) -> Seq<u8> {
    if payload.len() == 0 {
        Seq::empty()
    } else {
        len_delimited(tag, payload)
    }
}

/// The bytes of one setting entry: key as field 1, value as field 2.
pub open spec fn setting_entry_bytes(key: Seq<u8>, value: Seq<u8>) -> Seq<u8> {
    string_field(0x0a, key) + string_field(0x12, value)
}

/// The bytes of a setting message holding that one entry as field 1.
pub open spec fn setting_bytes(key: Seq<u8>, value: Seq<u8>) -> Seq<u8> {
    len_delimited(0x0a, setting_entry_bytes(key, value))
}

/// The given strings joined with commas, in order.
pub open spec fn joined(keys: Seq<Seq<char>>) -> Seq<char>
    decreases keys.len(),
{
    if keys.len() == 0 {
        Seq::empty()
    } else if keys.len() == 1 {
        keys[0]
    } else {
        joined(keys.drop_last()) + seq![','] + keys.last()
    }
}

/// Append the varint encoding of a length.
fn push_varint(out: &mut Vec<u8>, n: usize)
    ensures
        final(out)@ == old(out)@ + varint(n as nat),
{
    let mut m: usize = n;
    while m >= 128
        invariant
            old(out)@ + varint(n as nat) =~= out@ + varint(m as nat),
        decreases m,
    {
        let b: u8 = ((m % 128) + 128) as u8;
        out.push(b);
        proof {
            assert(varint(m as nat) =~= seq![b] + varint((m / 128) as nat));
            assert(old(out)@ + varint(n as nat) =~= out@ + varint((m / 128) as nat));
        }
        m = m / 128;
    }
    out.push(m as u8);
    proof {
        assert(varint(m as nat) =~= seq![m as u8]);
        assert(out@ =~= old(out)@ + varint(n as nat));
    }
}

/// Append a length-delimited field: tag, payload length, payload bytes.
fn push_len_delimited(out: &mut Vec<u8>, tag: u8, payload: &Vec<u8>)
    ensures
        final(out)@ == old(out)@ + len_delimited(tag, payload@),
{
    out.push(tag);
    push_varint(out, payload.len());
    let mut i: usize = 0;
    while i < payload.len()
        invariant
            i <= payload@.len(),
            out@ =~= old(out)@ + seq![tag] + varint(payload@.len() as nat) + payload@.take(
                i as int,
            ),
        decreases payload@.len() - i,
    {
        out.push(payload[i]);
        proof {
            assert(payload@.take(i + 1) =~= payload@.take(i as int).push(payload@[i as int]));
        }
        i += 1;
    }
    proof {
        assert(payload@.take(payload@.len() as int) =~= payload@);
        assert(out@ =~= old(out)@ + len_delimited(tag, payload@));
    }
}

/// Encode a setting message with one entry mapping `key` to `value`,
/// exactly as its protobuf wire form states it.
pub fn encode_setting(key: &str, value: &str) -> (out: Vec<u8>)
    ensures
        out@ == setting_bytes(key.spec_bytes(), value.spec_bytes()),
{
    let key_bytes = key.as_bytes_vec();
    let value_bytes = value.as_bytes_vec();
    let mut entry: Vec<u8> = Vec::new();
    if key_bytes.len() > 0 {
        push_len_delimited(&mut entry, 0x0a, &key_bytes);
    }
    proof {
        assert(entry@ =~= string_field(0x0a, key.spec_bytes()));
    }
    if value_bytes.len() > 0 {
        push_len_delimited(&mut entry, 0x12, &value_bytes);
    }
    proof {
        assert(entry@ =~= setting_entry_bytes(key.spec_bytes(), value.spec_bytes()));
    }
    let mut out: Vec<u8> = Vec::new();
    push_len_delimited(&mut out, 0x0a, &entry);
    proof {
        assert(out@ =~= setting_bytes(key.spec_bytes(), value.spec_bytes()));
    }
    out
}

/// Join the admin keys with commas, in order.
pub fn join_keys(keys: &Vec<String>) -> (out: String)
    ensures
        out@ == joined(keys@.map_values(|k: String| k@)),
{
    let ghost views = keys@.map_values(|k: String| k@);
    let mut out = String::new();
    let mut i: usize = 0;
    while i < keys.len()
        invariant
            i <= keys@.len(),
            views == keys@.map_values(|k: String| k@),
            out@ =~= joined(views.take(i as int)),
        decreases keys@.len() - i,
    {
        if i > 0 {
            out.append(",");
            proof {
                reveal_strlit(",");
            }
        }
        out.append(keys[i].as_str());
        proof {
            assert(views.take(i + 1).drop_last() =~= views.take(i as int));
            assert(views.take(i + 1).last() == views[i as int]);
            if i == 0 {
                assert(out@ =~= joined(views.take(1)));
            } else {
                assert(out@ =~= joined(views.take(i as int)) + seq![','] + views[i as int]);
                assert(out@ =~= joined(views.take(i + 1)));
            }
        }
        i += 1;
    }
    proof {
        assert(views.take(keys@.len() as int) =~= views);
    }
    out
}

/// The single administrative configuration entry a fresh store is
/// initialized with: at `address`, the encoded setting whose one entry
/// maps `setting_key` to the admin keys joined with commas.
pub fn genesis_change(address: &str, setting_key: &str, admin_keys: &Vec<String>) -> (c:
    StateChange)
    ensures
        c@ matches ChangeView::Put { key, value } && key == address@ && value == setting_bytes(
            setting_key.spec_bytes(),
            vstd::utf8::encode_utf8(joined(admin_keys@.map_values(|k: String| k@))),
        ),
{
    let value = join_keys(admin_keys);
    let bytes = encode_setting(setting_key, value.as_str());
    StateChange::Put { key: String::from_str(address), value: bytes }
}

} // verus!
