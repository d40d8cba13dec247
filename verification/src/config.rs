use vstd::prelude::*;

use crate::codec::{decode_byte_array, decoded_bytes};
use crate::error::Error;
use crate::jsonval::{
    json_as_str, json_get, json_is_null, json_model, json_parse, json_parsed, JsonValueModel,
};
use vstd::slice::slice_subrange;

verus! {

// Parsing of the binary credential file: a little-endian length prefix
// followed by that many encoded bytes, once per field. The decoded bytes of
// each field are interpreted as UTF-8.

/// The secrets read from the credential file. The display name, author and
/// identifier only appear in the JSON-bearing variant of the file.
#[derive(Debug)]
pub struct LauncherData {
    pub patcher_secret: String,
    pub app_secret: String,
    pub app_display_name: Option<String>,
    pub app_author: Option<String>,
    pub app_identifier: Option<String>,
}

/// The value of a 32-bit little-endian length prefix.
pub open spec fn le_u32_val(b0: u8, b1: u8, b2: u8, b3: u8) -> int {
    b0 + 256 * b1 + 65536 * b2 + 16777216 * b3
}

/// One length-prefixed encoded block: the decoded bytes it holds and the
/// position just after it. `None` when the data is too short for the length
/// prefix or for the announced number of bytes.
pub open spec fn block_at(data: Seq<u8>, start: int) -> Option<(Seq<u8>, int)> {
    if 0 <= start && start + 4 <= data.len() {
        let n = le_u32_val(data[start], data[start + 1], data[start + 2], data[start + 3]);
        if start + 4 + n <= data.len() {
            Some((decoded_bytes(data.subrange(start + 4, start + 4 + n)), start + 4 + n))
        } else {
            None
        }
    } else {
        None
    }
}

/// Whether every byte of the sequence is plain ASCII.
pub open spec fn ascii_bytes(s: Seq<u8>) -> bool {
    forall|i: int| 0 <= i < s.len() ==> s[i] < 128
}

/// The characters a byte sequence decodes to under UTF-8, or `None` when the
/// bytes are not valid UTF-8.
pub uninterp spec fn utf8_chars(bytes: Seq<u8>) -> Option<Seq<char>>;

/// Relies on String::from_utf8: it succeeds exactly on valid UTF-8 input,
/// and ASCII bytes decode to the characters with the same code points.
#[verifier::external_body]
fn string_from_utf8(bytes: Vec<u8>) -> (r: Option<String>)
    ensures
        r is Some <==> utf8_chars(bytes@) is Some,
        r is Some ==> r->0@ == utf8_chars(bytes@)->0,
        ascii_bytes(bytes@) ==> r is Some && r->0@.len() == bytes@.len() && (forall|i: int|
            0 <= i < bytes@.len() ==> r->0@[i] as u32 == bytes@[i] as u32),
{
    String::from_utf8(bytes).ok()
}

fn le_u32_at(data: &[u8], start: usize) -> (r: u32)
    requires
        start + 4 <= data@.len(),
    ensures
        r == le_u32_val(data@[start as int], data@[start as int + 1], data@[start as int + 2],
            data@[start as int + 3]),
{
    let b0 = data[start];
    let b1 = data[start + 1];
    let b2 = data[start + 2];
    let b3 = data[start + 3];
    let r = (b0 as u32) | ((b1 as u32) << 8u32) | ((b2 as u32) << 16u32) | ((b3 as u32) << 24u32);
    proof {
        let x0 = b0 as u32;
        let x1 = b1 as u32;
        let x2 = b2 as u32;
        let x3 = b3 as u32;
        assert((x0 | (x1 << 8u32) | (x2 << 16u32) | (x3 << 24u32)) == x0 + 256 * x1 + 65536 * x2
            + 16777216 * x3) by (bit_vector)
            requires
                x0 < 256 && x1 < 256 && x2 < 256 && x3 < 256,
        ;
    }
    r
}

/// Reads one length-prefixed encoded field at `start`: decodes the block and
/// interprets the decoded bytes as UTF-8. Returns the field text and the
/// position just after the block. Truncated data is an I/O error; an empty
/// decoded field or invalid UTF-8 is a credential-file error.
pub fn read_encoded_string(data: &[u8], start: usize) -> (r: Result<(String, usize), Error>)
    ensures
        r is Ok <==> (block_at(data@, start as int) matches Some(b) && b.0.len() > 0 && utf8_chars(
            b.0,
        ) is Some),
        r is Ok ==> (block_at(data@, start as int) matches Some(b) && r->Ok_0.0@ == utf8_chars(
            b.0,
        )->0 && r->Ok_0.1 == b.1),
        (block_at(data@, start as int) matches Some(b) && b.0.len() > 0 && ascii_bytes(b.0)) ==> r
            is Ok,
        block_at(data@, start as int) is None ==> (r matches Err(e) && e is Io),
        (block_at(data@, start as int) matches Some(b) && (b.0.len() == 0 || utf8_chars(b.0)
            is None)) ==> (r matches Err(e) && e is DatFile),
{
    let len = data.len();
    if len < 4 || start > len - 4 {
        return Err(Error::Io("unexpected end of credential data".to_owned()));
    }
    let n32 = le_u32_at(data, start);
    let n = n32 as usize;
    let body_start = start + 4;
    if n > len - body_start {
        return Err(Error::Io("unexpected end of credential data".to_owned()));
    }
    let encoded = slice_subrange(data, body_start, body_start + n);
    let decoded = decode_byte_array(encoded);
    proof {
        assert(encoded@ == data@.subrange(start + 4, start + 4 + n));
        assert(block_at(data@, start as int) matches Some(b) && b.0 == decoded@ && b.1 == start + 4
            + n);
    }
    if decoded.len() == 0 {
        return Err(Error::DatFile("decoded credential field is empty".to_owned()));
    }
    match string_from_utf8(decoded) {
        Some(text) => Ok((text, body_start + n)),
        None => Err(Error::DatFile("credential field is not valid UTF-8".to_owned())),
    }
}

/// Whether the data opens with the magic bytes that mark the JSON-bearing
/// credential file variant.
pub open spec fn has_json_magic(data: Seq<u8>) -> bool {
    data.len() >= 4 && data[0] == 46 && data[1] == 98 && data[2] == 76 && data[3] == 97
}

/// Whether a JSON document has the shape of the JSON-bearing credential
/// file: an object whose `patcher_secret` and `app_secret` are strings, and
/// whose optional name fields, where present, are strings or null.
pub open spec fn launcher_data_model_ok(m: JsonValueModel) -> bool {
    &&& m is Obj
    &&& m->Obj_0.contains_key("patcher_secret"@)
    &&& m->Obj_0["patcher_secret"@] is Text
    &&& m->Obj_0.contains_key("app_secret"@)
    &&& m->Obj_0["app_secret"@] is Text
    &&& optional_text_field_ok(m->Obj_0, "app_display_name"@)
    &&& optional_text_field_ok(m->Obj_0, "app_author"@)
    &&& optional_text_field_ok(m->Obj_0, "app_identifier"@)
}

/// Whether an optional field is absent, null, or a string.
pub open spec fn optional_text_field_ok(obj: Map<Seq<char>, JsonValueModel>, key: Seq<char>) -> bool {
    !obj.contains_key(key) || obj[key] is Text || obj[key] is Null
}

/// The text of an optional field, `None` when it is absent or null.
pub open spec fn optional_text_field(obj: Map<Seq<char>, JsonValueModel>, key: Seq<char>) -> Option<
    Seq<char>,
> {
    if obj.contains_key(key) && obj[key] is Text {
        Some(obj[key]->Text_0)
    } else {
        None
    }
}

/// Reads one optional string field of the credential document: absent or
/// null is `None`; any other non-string value is a credential-data error.
fn read_optional_field(value: &serde_json::Value, key: &str) -> (r: Result<Option<String>, Error>)
    requires
        json_model(*value) is Obj,
    ensures
        r is Ok <==> optional_text_field_ok(json_model(*value)->Obj_0, key@),
        r is Ok ==> (match optional_text_field(json_model(*value)->Obj_0, key@) {
            Some(t) => r->Ok_0 matches Some(s) && s@ == t,
            None => r->Ok_0 is None,
        }),
        r is Err ==> r->Err_0 is Json,
{
    match json_get(value, key) {
        None => Ok(None),
        Some(field) => match json_as_str(field) {
            Some(s) => Ok(Some(s.to_owned())),
            None => {
                if json_is_null(field) {
                    Ok(None)
                } else {
                    Err(Error::Json("credential field is not a string".to_owned()))
                }
            },
        },
    }
}

impl LauncherData {
    /// Reads the JSON-bearing credential file variant: the magic marker,
    /// then one length-prefixed encoded block holding a JSON document with
    /// the secrets.
    pub fn from_json(data: &[u8]) -> (r: Result<LauncherData, Error>)
        ensures
            r is Ok <==> (has_json_magic(data@) && (block_at(data@, 4) matches Some(b) && b.0.len()
                > 0 && (utf8_chars(b.0) matches Some(text) && (json_parsed(text) matches Some(m)
                && launcher_data_model_ok(m))))),
            r is Ok ==> (block_at(data@, 4) matches Some(b) && (json_parsed(utf8_chars(b.0)->0)
                matches Some(m) && {
                &&& r->Ok_0.patcher_secret@ == m->Obj_0["patcher_secret"@]->Text_0
                &&& r->Ok_0.app_secret@ == m->Obj_0["app_secret"@]->Text_0
                &&& (match optional_text_field(m->Obj_0, "app_display_name"@) {
                    Some(t) => r->Ok_0.app_display_name matches Some(s) && s@ == t,
                    None => r->Ok_0.app_display_name is None,
                })
                &&& (match optional_text_field(m->Obj_0, "app_author"@) {
                    Some(t) => r->Ok_0.app_author matches Some(s) && s@ == t,
                    None => r->Ok_0.app_author is None,
                })
                &&& (match optional_text_field(m->Obj_0, "app_identifier"@) {
                    Some(t) => r->Ok_0.app_identifier matches Some(s) && s@ == t,
                    None => r->Ok_0.app_identifier is None,
                })
            })),
            !has_json_magic(data@) ==> (r matches Err(e) && e is DatFile),
            r is Err ==> (r->Err_0 is Io || r->Err_0 is DatFile || r->Err_0 is Json),
    {
        if data.len() < 4 || !(data[0] == 46 && data[1] == 98 && data[2] == 76 && data[3] == 97) {
            return Err(Error::DatFile("Invalid magic bytes".to_owned()));
        }
        let (json_text, _end) = match read_encoded_string(data, 4) {
            Ok(p) => p,
            Err(e) => {
                return Err(e);
            },
        };
        let value = match json_parse(json_text.as_str()) {
            Ok(v) => v,
            Err(e) => {
                return Err(e);
            },
        };
        let patcher_secret = match json_get(&value, "patcher_secret") {
            Some(f) => match json_as_str(f) {
                Some(s) => s.to_owned(),
                None => {
                    return Err(Error::Json("patcher_secret is not a string".to_owned()));
                },
            },
            None => {
                return Err(Error::Json("patcher_secret is missing".to_owned()));
            },
        };
        let app_secret = match json_get(&value, "app_secret") {
            Some(f) => match json_as_str(f) {
                Some(s) => s.to_owned(),
                None => {
                    return Err(Error::Json("app_secret is not a string".to_owned()));
                },
            },
            None => {
                return Err(Error::Json("app_secret is missing".to_owned()));
            },
        };
        let app_display_name = match read_optional_field(&value, "app_display_name") {
            Ok(v) => v,
            Err(e) => {
                return Err(e);
            },
        };
        let app_author = match read_optional_field(&value, "app_author") {
            Ok(v) => v,
            Err(e) => {
                return Err(e);
            },
        };
        let app_identifier = match read_optional_field(&value, "app_identifier") {
            Ok(v) => v,
            Err(e) => {
                return Err(e);
            },
        };
        Ok(
            LauncherData {
                patcher_secret,
                app_secret,
                app_display_name,
                app_author,
                app_identifier,
            },
        )
    }

    /// Reads the plain binary credential file: the patcher secret, then the
    /// app secret, each as a length-prefixed encoded block.
    pub fn from_binary(data: &[u8]) -> (r: Result<LauncherData, Error>)
        ensures
            r is Ok <==> (block_at(data@, 0) matches Some(b1) && b1.0.len() > 0 && utf8_chars(b1.0)
                is Some && (block_at(data@, b1.1) matches Some(b2) && b2.0.len() > 0 && utf8_chars(
                b2.0,
            ) is Some)),
            r is Ok ==> (block_at(data@, 0) matches Some(b1) && (block_at(data@, b1.1)
                matches Some(b2) && r->Ok_0.patcher_secret@ == utf8_chars(b1.0)->0
                && r->Ok_0.app_secret@ == utf8_chars(b2.0)->0 && r->Ok_0.app_display_name is None
                && r->Ok_0.app_author is None && r->Ok_0.app_identifier is None)),
            r is Err ==> (r->Err_0 is Io || r->Err_0 is DatFile),
    {
        let (patcher_secret, next) = match read_encoded_string(data, 0) {
            Ok(p) => p,
            Err(e) => { return Err(e); },
        };
        let (app_secret, _end) = match read_encoded_string(data, next) {
            Ok(p) => p,
            Err(e) => { return Err(e); },
        };
        Ok(
            LauncherData {
                patcher_secret,
                app_secret,
                app_display_name: None,
                app_author: None,
                app_identifier: None,
            },
        )
    }
}

} // verus!
