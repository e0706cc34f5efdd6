//! Key-Value File System (KV-FS): cache keys, file names and the record schema for
//! persisting file scanning outcomes.
use vstd::prelude::*;
use vstd::string::*;

use crate::text::{
    chars_of, hex_digits, hex_string, hex_value, is_white_space, lemma_hex16_injective,
    lemma_hex_digits_value, lemma_split_concat, lemma_split_no_sep, lemma_trim_end_keeps, pow16,
    split_char, split_seq, str_views, text_eq, trim_end, trim_end_seq,
};

verus! {

/// The FNV-1a 64-bit offset basis.
pub const FNV_OFFSET_BASIS: u64 = 0xcbf29ce484222325;

/// The FNV-1a 64-bit prime.
pub const FNV_PRIME: u64 = 0x100000001b3;

/// The FNV-1a 64-bit hash of `bytes`: starting from the offset basis, each byte is XORed in
/// and the state is multiplied by the prime, modulo `2^64`.
pub open spec fn fnv1a_64_spec(bytes: Seq<u8>) -> u64
    decreases bytes.len(),
{
    if bytes.len() == 0 {
        FNV_OFFSET_BASIS
    } else {
        vstd::wrapping::u64_specs::wrapping_mul(
            fnv1a_64_spec(bytes.drop_last()) ^ (bytes.last() as u64),
            FNV_PRIME,
        )
    }
}

/// The cache key of a text: the FNV-1a 64-bit hash of its UTF-8 bytes, as sixteen
/// upper-case hexadecimal digits.
pub open spec fn cache_key(data: Seq<u8>) -> Seq<char> {
    hex_digits(fnv1a_64_spec(data) as nat, 16)
}

/// The FNV-1a 64-bit hash of the UTF-8 bytes of `data`.
fn fnv1a_64(data: &str) -> (h: u64)
    ensures
        h == fnv1a_64_spec(data.spec_bytes()),
{
    let bytes = data.as_bytes();
    let mut hash: u64 = FNV_OFFSET_BASIS;
    let mut i: usize = 0;
    assert(bytes@.take(0) =~= Seq::<u8>::empty());
    while i < bytes.len()
        invariant
            i <= bytes@.len(),
            bytes@ == data.spec_bytes(),
            hash == fnv1a_64_spec(bytes@.take(i as int)),
        decreases bytes.len() - i,
    {
        assert(bytes@.take(i + 1).drop_last() =~= bytes@.take(i as int));
        hash = hash ^ (bytes[i] as u64);
        hash = hash.wrapping_mul(FNV_PRIME);
        i = i + 1;
    }
    assert(bytes@.take(bytes@.len() as int) =~= bytes@);
    hash
}

/// Implements the FNV-1a 64-bit hash algorithm and returns a 16-character hex string
/// (upper case).
pub fn fnv1a_64_hex(data: &str) -> (r: String)
    ensures
        r@ == cache_key(data.spec_bytes()),
{
    let h = fnv1a_64(data);
    hex_string(h, 16)
}

/// Two texts get the same cache key only when their FNV-1a 64-bit hashes are equal: the key
/// is the whole hash, sixteen hexadecimal digits long, and it reads back as the hash.
pub proof fn law_cache_key_is_hash(a: Seq<u8>, b: Seq<u8>)
    ensures
        cache_key(a).len() == 16,
        hex_value(cache_key(a)) == fnv1a_64_spec(a),
        cache_key(a) == cache_key(b) <==> fnv1a_64_spec(a) == fnv1a_64_spec(b),
{
    lemma_hex_digits_value(fnv1a_64_spec(a) as nat, 16);
    reveal_with_fuel(pow16, 17);
    assert(pow16(16) == 0x1_0000_0000_0000_0000);
    if cache_key(a) == cache_key(b) {
        lemma_hex16_injective(fnv1a_64_spec(a), fnv1a_64_spec(b));
    }
}

/// `name` placed under the directory `dir`, as `Path::join` composes them with `/` as
/// separator: an absolute `name` replaces `dir`, an empty `dir` gives `name`, and a separator
/// is inserted unless `dir` already ends with one.
pub open spec fn join_path(dir: Seq<char>, name: Seq<char>) -> Seq<char> {
    if name.len() > 0 && name[0] == '/' {
        name
    } else if dir.len() == 0 {
        name
    } else if dir.last() == '/' {
        dir + name
    } else {
        dir + seq!['/'] + name
    }
}

/// Joins `name` under `dir` (see [`join_path`]).
pub fn join(dir: &str, name: &str) -> (r: String)
    ensures
        r@ == join_path(dir@, name@),
{
    let d = chars_of(dir);
    let n = chars_of(name);
    if n.len() > 0 && n[0] == '/' {
        return String::from_str(name);
    }
    if d.len() == 0 {
        return String::from_str(name);
    }
    let mut r = String::from_str(dir);
    if d[d.len() - 1] != '/' {
        proof { reveal_strlit("/"); }
        r.append("/");
    }
    r.append(name);
    r
}

/// The processing marker of a hash never has the path of its finished record: the marker's
/// path is four characters longer.
pub proof fn law_marker_differs_from_record(dir: Seq<char>, hash: Seq<char>)
    ensures
        join_path(dir, hash + ".tmp"@).len() == join_path(dir, hash).len() + 4,
        join_path(dir, hash + ".tmp"@) != join_path(dir, hash),
{
    reveal_strlit(".tmp");
    let n = hash + ".tmp"@;
    assert(n.len() == hash.len() + 4);
    if hash.len() > 0 {
        assert(n[0] == hash[0]);
    } else {
        assert(n[0] == '.');
    }
}

/// Key-Value File System (KV-FS) logic for persisting file scanning outcomes.
#[derive(Clone)]
pub struct KvFs {
    dir: String,
}

impl View for KvFs {
    type V = Seq<char>;

    /// The storage directory.
    closed spec fn view(&self) -> Seq<char> {
        self.dir@
    }
}

impl KvFs {
    /// A KV-FS stored in the directory `dir` (which the caller has made sure exists).
    pub fn from_dir(dir: String) -> (r: Self)
        ensures
            r@ == dir@,
    {
        KvFs { dir }
    }

    /// The storage directory.
    pub fn dir(&self) -> (r: &str)
        ensures
            r@ == self@,
    {
        self.dir.as_str()
    }

    /// The `.tmp` path for a given hash, whose presence signals that the file is being
    /// processed.
    pub fn tmp_path(&self, hash: &str) -> (r: String)
        ensures
            r@ == join_path(self@, hash@ + ".tmp"@),
    {
        let name = String::from_str(hash).concat(".tmp");
        join(self.dir.as_str(), name.as_str())
    }

    /// The final path for a given hash, holding the finished record.
    pub fn final_path(&self, hash: &str) -> (r: String)
        ensures
            r@ == join_path(self@, hash@),
    {
        join(self.dir.as_str(), hash)
    }
}

/// A cache record in its textual form: each field is the text of a number, or `None`, which
/// the schema writes as `-`.
#[derive(Debug, Clone)]
pub struct KvFsRecord {
    /// The start of the intro, in seconds.
    pub intro_start: Option<String>,
    /// The start of the outro, in seconds.
    pub outro_start: Option<String>,
    /// The assumed intro duration, in seconds.
    pub intro_duration: Option<String>,
    /// The assumed outro duration, in seconds.
    pub outro_duration: Option<String>,
}

/// The view of an optional text field.
pub open spec fn field_view(f: Option<String>) -> Option<Seq<char>> {
    match f {
        Some(s) => Some(s@),
        None => None,
    }
}

impl View for KvFsRecord {
    type V = Seq<Option<Seq<char>>>;

    /// The four fields in schema order.
    open spec fn view(&self) -> Seq<Option<Seq<char>>> {
        seq![
            field_view(self.intro_start),
            field_view(self.outro_start),
            field_view(self.intro_duration),
            field_view(self.outro_duration),
        ]
    }
}

/// The text of a field in the schema: its text, or `-` for none.
pub open spec fn field_text(f: Option<Seq<char>>) -> Seq<char> {
    match f {
        Some(s) => s,
        None => "-"@,
    }
}

/// The field that a piece of a record line stands for: `-` is none.
pub open spec fn parse_field(p: Seq<char>) -> Option<Seq<char>> {
    if p == "-"@ {
        None
    } else {
        Some(p)
    }
}

/// The record line of four fields:
/// `<intro_start>\t<outro_start>\t<intro_duration>\t<outro_duration>\n`.
pub open spec fn encode_spec(fields: Seq<Option<Seq<char>>>) -> Seq<char> {
    field_text(fields[0]) + seq!['\t'] + field_text(fields[1]) + seq!['\t'] + field_text(fields[2])
        + seq!['\t'] + field_text(fields[3]) + seq!['\n']
}

/// What a stored record reads back as: the content without trailing white space, split at
/// tabs, must have exactly four pieces; each piece is a field (`-` for none).
pub open spec fn decode_spec(content: Seq<char>) -> Option<Seq<Option<Seq<char>>>> {
    let parts = split_seq(trim_end_seq(content), '\t');
    if parts.len() != 4 {
        None
    } else {
        Some(parts.map_values(|p: Seq<char>| parse_field(p)))
    }
}

fn field_out(f: &Option<String>) -> (r: String)
    ensures
        r@ == field_text(field_view(*f)),
{
    match f {
        Some(s) => s.clone(),
        None => String::from_str("-"),
    }
}

fn field_in(p: &str) -> (r: Option<String>)
    ensures
        field_view(r) == parse_field(p@),
{
    if text_eq(p, "-") {
        None
    } else {
        Some(String::from_str(p))
    }
}

impl KvFsRecord {
    /// The record line written to the store:
    /// `<intro_start>\t<outro_start>\t<intro_duration>\t<outro_duration>\n`.
    pub fn encode(&self) -> (r: String)
        ensures
            r@ == encode_spec(self@),
    {
        let mut r = field_out(&self.intro_start);
        r.append("\t");
        r.append(field_out(&self.outro_start).as_str());
        r.append("\t");
        r.append(field_out(&self.intro_duration).as_str());
        r.append("\t");
        r.append(field_out(&self.outro_duration).as_str());
        r.append("\n");
        proof {
            reveal_strlit("\t");
            reveal_strlit("\n");
        }
        r
    }

    /// Reads a stored record line back: `None` when the content does not hold exactly
    /// four tab-separated fields (a schema mismatch).
    pub fn decode(content: &str) -> (r: Option<KvFsRecord>)
        ensures
            match r {
                Some(rec) => decode_spec(content@) == Some(rec@),
                None => decode_spec(content@) is None,
            },
    {
        let trimmed = trim_end(content);
        let parts = split_char(trimmed, '\t');
        if parts.len() != 4 {
            return None;
        }
        let rec = KvFsRecord {
            intro_start: field_in(parts[0]),
            outro_start: field_in(parts[1]),
            intro_duration: field_in(parts[2]),
            outro_duration: field_in(parts[3]),
        };
        proof {
            let ps = split_seq(trim_end_seq(content@), '\t');
            assert(str_views(parts@)[0] == parts@[0]@);
            assert(str_views(parts@)[1] == parts@[1]@);
            assert(str_views(parts@)[2] == parts@[2]@);
            assert(str_views(parts@)[3] == parts@[3]@);
            assert(ps.map_values(|p: Seq<char>| parse_field(p)) =~= rec@);
        }
        Some(rec)
    }
}

/// A field that the schema carries unchanged: not the none marker `-`, and no tab in it.
pub open spec fn field_storable(f: Option<Seq<char>>) -> bool {
    match f {
        Some(s) => s != "-"@ && !s.contains('\t'),
        None => true,
    }
}

/// A record that reads back as written: every field storable, and the last field, when
/// present, non-empty and not ending in white space (the reader trims the line's end).
pub open spec fn record_storable(fields: Seq<Option<Seq<char>>>) -> bool {
    &&& fields.len() == 4
    &&& forall|i: int| 0 <= i < 4 ==> field_storable(#[trigger] fields[i])
    &&& match fields[3] {
        Some(s) => s.len() > 0 && !is_white_space(s.last()),
        None => true,
    }
}

/// Reading a written record gives back the record that was written.
pub proof fn law_record_roundtrip(fields: Seq<Option<Seq<char>>>)
    requires
        record_storable(fields),
    ensures
        decode_spec(encode_spec(fields)) == Some(fields),
{
    reveal_strlit("-");
    let t0 = field_text(fields[0]);
    let t1 = field_text(fields[1]);
    let t2 = field_text(fields[2]);
    let t3 = field_text(fields[3]);
    assert forall|i: int| 0 <= i < 4 implies !(#[trigger] field_text(fields[i])).contains('\t') by {
        assert(field_storable(fields[i]));
        if fields[i] is None {
            assert(!"-"@.contains('\t')) by {
                assert("-"@ =~= seq!['-']);
            }
        }
    }
    let body = t0 + seq!['\t'] + t1 + seq!['\t'] + t2 + seq!['\t'] + t3;
    assert(encode_spec(fields) =~= body.push('\n'));
    assert(t3.len() > 0 && !is_white_space(t3.last()));
    assert(body.last() == t3.last());
    assert(trim_end_seq(body.push('\n')) == trim_end_seq(body)) by {
        assert(body.push('\n').drop_last() =~= body);
    }
    lemma_trim_end_keeps(body);
    lemma_split_no_sep(t0, '\t');
    lemma_split_no_sep(t1, '\t');
    lemma_split_no_sep(t2, '\t');
    lemma_split_no_sep(t3, '\t');
    lemma_split_concat(t0 + seq!['\t'] + t1 + seq!['\t'] + t2, '\t', t3);
    lemma_split_concat(t0 + seq!['\t'] + t1, '\t', t2);
    lemma_split_concat(t0, '\t', t1);
    let parts = split_seq(body, '\t');
    assert(parts =~= seq![t0, t1, t2, t3]);
    assert forall|i: int| 0 <= i < 4 implies parse_field(#[trigger] field_text(fields[i]))
        == fields[i] by {
        assert(field_storable(fields[i]));
    }
    assert(parts.map_values(|p: Seq<char>| parse_field(p)) =~= fields);
}

} // verus!
