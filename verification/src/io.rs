use vstd::prelude::*;
use vstd::utf8::{valid_utf8, decode_utf8};
use crate::host_handlers::{HostContext, HostV, lookup, store, store_file, lookup_pair, lemma_lookup_store, files_view, find_key, lemma_key_index_is, lemma_key_index_absent};
use crate::text::{string_chars, string_from_chars, concat_chars, chars_between, str_to_uppercase, str_to_lowercase, unicode_to_upper, unicode_to_lower};
use crate::vm::{ScriptVm, utf8_to_string};

verus! {

/// The text that `String::from_utf8_lossy` makes of bytes that are not valid
/// UTF-8 (each invalid sequence replaced by U+FFFD).
pub uninterp spec fn lossy_text(bytes: Seq<u8>) -> Seq<char>;

/// `String::from_utf8_lossy`: the bytes decoded as UTF-8, invalid sequences
/// replaced by U+FFFD; for valid UTF-8, exactly its decoding.
#[verifier::external_body]
fn utf8_lossy(bytes: &[u8]) -> (r: String)
    ensures
        r@ == lossy_text(bytes@),
        valid_utf8(bytes@) ==> r@ == decode_utf8(bytes@),
{
    String::from_utf8_lossy(bytes).into_owned()
}

/// The text of a file's contents: its UTF-8 decoding, or the lossy one.
pub open spec fn file_text(bytes: Seq<u8>) -> Seq<char> {
    if valid_utf8(bytes) { decode_utf8(bytes) } else { lossy_text(bytes) }
}

/// What `file_read` answers: 400 for an empty path, the file's text, or 404
/// when there is no such file (or no host).
pub open spec fn file_read_answer(h: Option<HostV>, path: Seq<char>) -> Result<Seq<char>, u32> {
    if path.len() == 0 {
        Err(400)
    } else {
        match h {
            Some(hv) => match lookup(hv.files, path) {
                Some(bytes) => Ok(file_text(bytes)),
                None => Err(404),
            },
            None => Err(404),
        }
    }
}

pub open spec fn text_result(r: Result<String, u32>) -> Result<Seq<char>, u32> {
    match r {
        Ok(s) => Ok(s@),
        Err(e) => Err(e),
    }
}

pub open spec fn host_view(ctx: Option<&HostContext>) -> Option<HostV> {
    match ctx {
        Some(c) => Some(c@),
        None => None,
    }
}

/// Command 1: the text of the file at `path`.
pub fn file_read(ctx: Option<&HostContext>, path: String) -> (r: Result<String, u32>)
    ensures
        text_result(r) == file_read_answer(host_view(ctx), path@),
{
    if path.as_str().is_empty() {
        return Err(400);
    }
    match ctx {
        Some(c) => {
            let ghost l = files_view(c.virtual_filesystem@);
            match find_key(&c.virtual_filesystem, &path) {
                Some(i) => {
                    proof {
                        assert forall|j: int| 0 <= j < i implies l[j].0 != path@ by {
                            assert(l[j].0 == c.virtual_filesystem@[j].0@);
                        }
                        lemma_key_index_is(l, path@, i as int);
                    }
                    let bytes = &c.virtual_filesystem[i].1;
                    let mut copy: Vec<u8> = Vec::new();
                    let mut k: usize = 0;
                    while k < bytes.len()
                        invariant
                            k <= bytes@.len(),
                            copy@ == bytes@.take(k as int),
                        decreases bytes@.len() - k,
                    {
                        copy.push(bytes[k]);
                        k = k + 1;
                        proof {
                            assert(copy@ =~= bytes@.take(k as int));
                        }
                    }
                    proof {
                        assert(bytes@.take(bytes@.len() as int) =~= bytes@);
                    }
                    match utf8_to_string(copy) {
                        Some(s) => Ok(s),
                        None => Ok(utf8_lossy(bytes.as_slice())),
                    }
                },
                None => {
                    proof {
                        assert forall|j: int| 0 <= j < l.len() implies l[j].0 != path@ by {
                            assert(l[j].0 == c.virtual_filesystem@[j].0@);
                        }
                        lemma_key_index_absent(l, path@);
                    }
                    Err(404)
                },
            }
        },
        None => Err(404),
    }
}


pub open spec fn context_view(ctx: Option<HostContext>) -> Option<HostV> {
    match ctx {
        Some(c) => Some(c@),
        None => None,
    }
}

/// What `file_write` does: stores the data under the path in the host's
/// files (when there is a host).
pub open spec fn file_write_effect(h: Option<HostV>, path: Seq<char>, data: Seq<u8>) -> Option<HostV> {
    match h {
        Some(hv) => Some(HostV { files: store(hv.files, path, data), ..hv }),
        None => None,
    }
}

/// Command 2: stores `data` under `path`; the byte count, as a `u32`.
pub fn file_write(ctx: &mut Option<HostContext>, path: String, data: Vec<u8>) -> (r: u32)
    ensures
        r == data@.len() as u32,
        context_view(*final(ctx)) =~~= file_write_effect(context_view(*old(ctx)), path@, data@),
{
    let bytes_written = data.len();
    match ctx {
        Some(c) => {
            store_file(&mut c.virtual_filesystem, path, data);
        },
        None => {},
    }
    bytes_written as u32
}

/// What `get_timestamp` answers and does: the clock advances by 10 and its
/// low 32 bits come back; without a host, 1700000000.
pub open spec fn timestamp_answer(h: Option<HostV>) -> (Option<HostV>, u32) {
    match h {
        Some(hv) => {
            let c = (hv.clock + 10) as u64;
            (Some(HostV { clock: c, ..hv }), (c & 0xffff_ffff) as u32)
        },
        None => (None, 1700000000),
    }
}

/// Command 3: the advancing clock.
pub fn get_timestamp(ctx: &mut Option<HostContext>) -> (r: u32)
    requires
        context_view(*old(ctx)) matches Some(hv) ==> hv.clock + 10 <= u64::MAX,
    ensures
        (context_view(*final(ctx)), r) =~~= timestamp_answer(context_view(*old(ctx))),
{
    match ctx {
        Some(c) => {
            c.timestamp_counter = c.timestamp_counter + 10;
            (c.timestamp_counter & 0xffff_ffff) as u32
        },
        None => 1700000000,
    }
}

/// What `get_env` answers: 400 for an empty key, the variable's value, or
/// 404.
pub open spec fn get_env_answer(h: Option<HostV>, key: Seq<char>) -> Result<Seq<char>, u32> {
    if key.len() == 0 {
        Err(400)
    } else {
        match h {
            Some(hv) => match lookup(hv.env, key) {
                Some(v) => Ok(v),
                None => Err(404),
            },
            None => Err(404),
        }
    }
}

/// Command 4: the value of the environment variable `key`.
pub fn get_env(ctx: Option<&HostContext>, key: String) -> (r: Result<String, u32>)
    ensures
        text_result(r) == get_env_answer(host_view(ctx), key@),
{
    if key.as_str().is_empty() {
        return Err(400);
    }
    match ctx {
        Some(c) => match lookup_pair(&c.environment_variables, &key) {
            Some(v) => Ok(v),
            None => Err(404),
        },
        None => Err(404),
    }
}

/// Command 5: the two strings joined.
pub fn string_concat(_vm: &mut ScriptVm, str1: String, str2: String) -> (r: String)
    ensures
        r@ == str1@ + str2@,
{
    string_from_chars(&concat_chars(&string_chars(&str1), &string_chars(&str2)))
}

/// Command 6: the number of characters, as a `u32`.
pub fn string_length(_vm: &mut ScriptVm, str_val: String) -> (r: u32)
    ensures
        r == str_val@.len() as u32,
{
    string_chars(&str_val).len() as u32
}

/// The characters from `start` up to `end`, both cut to the length (an end
/// before the start gives nothing).
pub open spec fn slice_text(t: Seq<char>, start: u32, end: u32) -> Seq<char> {
    let n = t.len();
    let s = if (start as nat) < n { start as int } else { n as int };
    let e0 = if (end as nat) < n { end as int } else { n as int };
    let e = if e0 > s { e0 } else { s };
    t.subrange(s, e)
}

/// Command 7: a slice of the string by character index.
pub fn string_slice(_vm: &mut ScriptVm, str_val: String, start: u32, end: u32) -> (r: String)
    ensures
        r@ == slice_text(str_val@, start, end),
{
    let char_vec = string_chars(&str_val);
    let n = char_vec.len();
    let s: usize = if (start as usize) < n { start as usize } else { n };
    let e0: usize = if (end as usize) < n { end as usize } else { n };
    let e: usize = if e0 > s { e0 } else { s };
    string_from_chars(&chars_between(&char_vec, s, e))
}

/// Command 8: the Unicode upper case of the string.
pub fn string_to_upper(_vm: &mut ScriptVm, str_val: String) -> (r: String)
    ensures
        r@ == unicode_to_upper(str_val@),
{
    string_from_chars(&str_to_uppercase(&string_chars(&str_val)))
}

/// Command 9: the Unicode lower case of the string.
pub fn string_to_lower(_vm: &mut ScriptVm, str_val: String) -> (r: String)
    ensures
        r@ == unicode_to_lower(str_val@),
{
    string_from_chars(&str_to_lowercase(&string_chars(&str_val)))
}


/// A file read gives back the text of what the last write to the same path
/// stored, and a write leaves the other paths alone.
pub proof fn lemma_file_read_after_write(h: HostV, path: Seq<char>, data: Seq<u8>, other: Seq<char>)
    requires
        path.len() > 0,
    ensures
        file_read_answer(file_write_effect(Some(h), path, data), path) == Ok::<Seq<char>, u32>(file_text(data)),
        other != path ==> file_read_answer(file_write_effect(Some(h), path, data), other)
            == file_read_answer(Some(h), other),
{
    lemma_lookup_store(h.files, path, data, other);
}

} // verus!
