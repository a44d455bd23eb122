use vstd::prelude::*;
use crate::decimal::{chars_of, parse_unsigned, parse_unsigned_chars};
use crate::pubkey::Pubkey;

verus! {

/// `s` cut at each `sep`, as `str::split` cuts it: one more piece than there
/// are separators, empty pieces included.
pub open spec fn split_on(s: Seq<char>, sep: char) -> Seq<Seq<char>>
    decreases s.len(),
{
    if s.len() == 0 {
        seq![Seq::<char>::empty()]
    } else {
        let rest = split_on(s.drop_last(), sep);
        if s.last() == sep {
            rest.push(Seq::<char>::empty())
        } else {
            rest.update(rest.len() - 1, rest.last().push(s.last()))
        }
    }
}

proof fn lemma_split_nonempty(s: Seq<char>, sep: char)
    ensures
        split_on(s, sep).len() >= 1,
    decreases s.len(),
{
    if s.len() > 0 {
        lemma_split_nonempty(s.drop_last(), sep);
    }
}

/// The pieces of `s` between commas.
pub fn split_commas(s: &Vec<char>) -> (parts: Vec<Vec<char>>)
    ensures
        parts@.len() == split_on(s@, ',').len(),
        forall|i: int| 0 <= i < parts@.len() ==> (#[trigger] parts@[i])@ == split_on(s@, ',')[i],
{
    let mut parts: Vec<Vec<char>> = Vec::new();
    parts.push(Vec::new());
    let mut i: usize = 0;
    while i < s.len()
        invariant
            i <= s@.len(),
            parts@.len() == split_on(s@.take(i as int), ',').len(),
            forall|j: int| 0 <= j < parts@.len() ==> (#[trigger] parts@[j])@ == split_on(s@.take(i as int), ',')[j],
        decreases s@.len() - i,
    {
        proof {
            lemma_split_nonempty(s@.take(i as int), ',');
        }
        assert(s@.take(i + 1).drop_last() =~= s@.take(i as int));
        let c = s[i];
        let ghost before = parts@;
        if c == ',' {
            parts.push(Vec::new());
            assert forall|j: int| 0 <= j < parts@.len() implies (#[trigger] parts@[j])@ == split_on(s@.take(i + 1), ',')[j] by {
                if j < parts@.len() - 1 {
                    assert(parts@[j] == before[j]);
                }
            }
        } else {
            let mut piece = parts.pop().unwrap();
            piece.push(c);
            parts.push(piece);
            assert forall|j: int| 0 <= j < parts@.len() implies (#[trigger] parts@[j])@ == split_on(s@.take(i + 1), ',')[j] by {
                if j < parts@.len() - 1 {
                    assert(parts@[j] == before[j]);
                }
            }
        }
        i = i + 1;
    }
    assert(s@.take(i as int) =~= s@);
    parts
}

} // verus!

verus! {

/// The pieces of a key file's text between commas, with the first character
/// of the first piece and the last character of the last piece taken off (the
/// brackets of `[1,2,...]`).
pub open spec fn key_file_fields(text: Seq<char>) -> Seq<Seq<char>> {
    let parts = split_on(text, ',');
    parts.update(0, parts[0].drop_first()).update(parts.len() - 1, parts.last().drop_last())
}

/// A character that takes one byte in UTF-8.
pub open spec fn is_single_byte(c: char) -> bool {
    (c as u32) < 128
}

/// The key file text can be read as a list of bytes: where it has at least
/// two pieces, the first piece starts and the last piece ends with a one-byte
/// character, and every field is a decimal number below 256.
pub open spec fn key_file_readable(text: Seq<char>) -> bool {
    let parts = split_on(text, ',');
    parts.len() >= 2 ==> {
        &&& parts[0].len() > 0
        &&& is_single_byte(parts[0][0])
        &&& parts.last().len() > 0
        &&& is_single_byte(parts.last().last())
        &&& forall|i: int|
            0 <= i < parts.len() ==> parse_unsigned(#[trigger] key_file_fields(text)[i], 255) is Ok
    }
}

/// The byte values of the fields of a readable key file.
pub open spec fn key_file_bytes(text: Seq<char>) -> Seq<u8> {
    key_file_fields(text).map_values(|f: Seq<char>| parse_unsigned(f, 255)->Ok_0 as u8)
}

/// What `ed25519_dalek::Keypair::from_bytes(bytes)` gives for `bytes`: the
/// bytes of the keypair's public key, or the text of its error.
pub uninterp spec fn keypair_public_result(bytes: Seq<u8>) -> Result<Seq<u8>, Seq<char>>;

pub open spec fn public_result_view(r: Result<[u8; 32], String>) -> Result<Seq<u8>, Seq<char>> {
    match r {
        Ok(b) => Ok(b@),
        Err(e) => Err(e@),
    }
}

/// `ed25519_dalek::Keypair::from_bytes`, keeping the public key's bytes and
/// the text of the error: the result is the one named `keypair_public_result`
/// for `bytes`. It succeeds only on 64 bytes, and its public key is their
/// second half.
#[verifier::external_body]
fn keypair_public_key(bytes: &[u8]) -> (res: Result<[u8; 32], String>)
    ensures
        public_result_view(res) == keypair_public_result(bytes@),
        res is Ok ==> bytes@.len() == 64,
        res matches Ok(pk) ==> pk@ == bytes@.subrange(32, 64),
{
    ed25519_dalek::Keypair::from_bytes(bytes).map(|k| k.public.to_bytes()).map_err(|e| e.to_string())
}

/// The message for key file contents that do not make a keypair.
pub open spec fn invalid_key_file_message(path: Seq<char>, error: Seq<char>) -> Seq<char> {
    "Invalid key file '"@ + path + "' contents: "@ + error
}

/// Whether `contents` can be read as a key file without fault (see
/// `key_file_readable`).
pub fn key_file_readable_exec(contents: &str) -> (b: bool)
    ensures
        b == key_file_readable(contents@),
{
    let text = chars_of(contents);
    let parts = split_commas(&text);
    proof {
        lemma_split_nonempty(text@, ',');
    }
    if parts.len() < 2 {
        return true;
    }
    let n = parts.len();
    if parts[0].len() == 0 || !((parts[0][0] as u32) < 128) {
        return false;
    }
    let last_len = parts[n - 1].len();
    if last_len == 0 || !((parts[n - 1][last_len - 1] as u32) < 128) {
        return false;
    }
    let fields = key_file_field_chars(&parts);
    let mut i: usize = 0;
    while i < n
        invariant
            i <= n,
            n >= 2,
            text@ == contents@,
            n == parts@.len(),
            n == split_on(text@, ',').len(),
            fields@.len() == n,
            forall|j: int| 0 <= j < n ==> (#[trigger] fields@[j])@ == key_file_fields(text@)[j],
            forall|j: int| 0 <= j < i ==> parse_unsigned(#[trigger] key_file_fields(text@)[j], 255) is Ok,
        decreases n - i,
    {
        if parse_unsigned_chars(&fields[i], 255).is_err() {
            assert(fields@[i as int]@ == key_file_fields(text@)[i as int]);
            assert(!(parse_unsigned(key_file_fields(text@)[i as int], 255) is Ok));
            assert(!(forall|j: int| 0 <= j < split_on(text@, ',').len() ==> parse_unsigned(#[trigger] key_file_fields(text@)[j], 255) is Ok));
            return false;
        }
        i = i + 1;
    }
    true
}

/// The pieces with the first character of the first and the last character
/// of the last taken off.
fn key_file_field_chars(parts: &Vec<Vec<char>>) -> (fields: Vec<Vec<char>>)
    requires
        parts@.len() >= 2,
        parts@[0]@.len() > 0,
        parts@.last()@.len() > 0,
    ensures
        fields@.len() == parts@.len(),
        forall|j: int| 0 <= j < fields@.len() ==> (#[trigger] fields@[j])@ == if j == 0 {
            parts@[0]@.drop_first()
        } else if j == parts@.len() - 1 {
            parts@.last()@.drop_last()
        } else {
            parts@[j]@
        },
{
    let n = parts.len();
    let mut fields: Vec<Vec<char>> = Vec::new();
    let mut i: usize = 0;
    while i < n
        invariant
            i <= n,
            n == parts@.len(),
            n >= 2,
            parts@[0]@.len() > 0,
            parts@.last()@.len() > 0,
            fields@.len() == i,
            forall|j: int| 0 <= j < i ==> (#[trigger] fields@[j])@ == if j == 0 {
                parts@[0]@.drop_first()
            } else if j == n - 1 {
                parts@.last()@.drop_last()
            } else {
                parts@[j]@
            },
        decreases n - i,
    {
        let p = &parts[i];
        let lo: usize = if i == 0 { 1 } else { 0 };
        let hi: usize = if i == n - 1 { p.len() - 1 } else { p.len() };
        let mut f: Vec<char> = Vec::new();
        let mut k: usize = lo;
        while k < hi
            invariant
                lo <= k <= hi <= p@.len(),
                f@ == p@.subrange(lo as int, k as int),
            decreases hi - k,
        {
            f.push(p[k]);
            assert(f@ =~= p@.subrange(lo as int, k + 1));
            k = k + 1;
        }
        assert(f@ =~= p@.subrange(lo as int, hi as int));
        fields.push(f);
        i = i + 1;
    }
    fields
}

} // verus!

verus! {

/// The address that the result of reading a keypair stands for: its public
/// key, or the message for a key file at `path` whose contents are invalid.
pub fn pubkey_from_keypair_result(path: &str, r: Result<[u8; 32], String>) -> (res: Result<Pubkey, String>)
    ensures
        match public_result_view(r) {
            Ok(pk) => res matches Ok(p) && p@ == pk,
            Err(e) => res matches Err(m) && m@ == invalid_key_file_message(path@, e),
        },
{
    match r {
        Ok(bytes) => Ok(Pubkey::new_from_array(bytes)),
        Err(e) => {
            let mut m = String::from_str("Invalid key file '");
            m.append(path);
            m.append("' contents: ");
            m.append(e.as_str());
            Err(m)
        },
    }
}

/// The address of the keypair in the key file at `path` whose text is
/// `contents`, a list of byte values such as `[1,2,...]`.
pub fn pubkey_from_key_file(path: &str, contents: &str) -> (res: Result<Pubkey, String>)
    requires
        key_file_readable(contents@),
    ensures
        split_on(contents@, ',').len() < 2 ==> (res matches Err(m) && m@ == "Short key file"@),
        split_on(contents@, ',').len() >= 2 ==> match keypair_public_result(key_file_bytes(contents@)) {
            Ok(pk) => res matches Ok(p) && p@ == pk,
            Err(e) => res matches Err(m) && m@ == invalid_key_file_message(path@, e),
        },
        res matches Ok(p) ==> key_file_bytes(contents@).len() == 64 && p@ == key_file_bytes(contents@).subrange(32, 64),
{
    let text = chars_of(contents);
    let parts = split_commas(&text);
    proof {
        lemma_split_nonempty(text@, ',');
    }
    if parts.len() < 2 {
        return Err(String::from_str("Short key file"));
    }
    let n = parts.len();
    let fields = key_file_field_chars(&parts);
    let mut bytes: Vec<u8> = Vec::new();
    let mut i: usize = 0;
    while i < n
        invariant
            i <= n,
            n >= 2,
            text@ == contents@,
            key_file_readable(text@),
            n == split_on(text@, ',').len(),
            fields@.len() == n,
            forall|j: int| 0 <= j < n ==> (#[trigger] fields@[j])@ == key_file_fields(text@)[j],
            bytes@ == key_file_bytes(text@).take(i as int),
        decreases n - i,
    {
        assert(fields@[i as int]@ == key_file_fields(text@)[i as int]);
        let value = match parse_unsigned_chars(&fields[i], 255) {
            Ok(v) => v as u8,
            Err(_) => 0,
        };
        assert(parse_unsigned(key_file_fields(text@)[i as int], 255) is Ok);
        assert(key_file_fields(text@).len() == n);
        assert(key_file_bytes(text@)[i as int] == value);
        bytes.push(value);
        assert(bytes@ =~= key_file_bytes(text@).take(i + 1));
        i = i + 1;
    }
    assert(bytes@ =~= key_file_bytes(text@));
    pubkey_from_keypair_result(path, keypair_public_key(bytes.as_slice()))
}

} // verus!
