//! Image assets registered on a surface: recognising image files by their
//! first bytes, hashing them, and describing where they are kept.
use vstd::prelude::*;

use sha2::{Digest, Sha256};

use crate::text::{push_char, push_str};

verus! {

pub open spec fn bytes_start_with(b: Seq<u8>, p: Seq<u8>) -> bool {
    p.len() <= b.len() && b.take(p.len() as int) == p
}

pub open spec fn png_magic() -> Seq<u8> {
    seq![0x89u8, 0x50u8, 0x4eu8, 0x47u8, 0x0du8, 0x0au8, 0x1au8, 0x0au8]
}

pub open spec fn jpeg_magic() -> Seq<u8> {
    seq![0xffu8, 0xd8u8, 0xffu8]
}

/// `GIF87a`.
pub open spec fn gif87_magic() -> Seq<u8> {
    seq![0x47u8, 0x49u8, 0x46u8, 0x38u8, 0x37u8, 0x61u8]
}

/// `GIF89a`.
pub open spec fn gif89_magic() -> Seq<u8> {
    seq![0x47u8, 0x49u8, 0x46u8, 0x38u8, 0x39u8, 0x61u8]
}

/// `RIFF`.
pub open spec fn riff_magic() -> Seq<u8> {
    seq![0x52u8, 0x49u8, 0x46u8, 0x46u8]
}

/// `WEBP`.
pub open spec fn webp_magic() -> Seq<u8> {
    seq![0x57u8, 0x45u8, 0x42u8, 0x50u8]
}

/// The file extension and MIME type of an image recognised by its first
/// bytes: PNG, JPEG, GIF (87a or 89a) or WebP (a RIFF file whose bytes 8..12
/// read `WEBP`).
pub open spec fn image_kind_spec(b: Seq<u8>) -> Option<(Seq<char>, Seq<char>)> {
    if bytes_start_with(b, png_magic()) {
        Some(("png"@, "image/png"@))
    } else if bytes_start_with(b, jpeg_magic()) {
        Some(("jpg"@, "image/jpeg"@))
    } else if bytes_start_with(b, gif87_magic()) || bytes_start_with(b, gif89_magic()) {
        Some(("gif"@, "image/gif"@))
    } else if b.len() >= 12 && bytes_start_with(b, riff_magic()) && b.subrange(8, 12)
        == webp_magic() {
        Some(("webp"@, "image/webp"@))
    } else {
        None
    }
}

fn starts_with_bytes(b: &[u8], from: usize, p: &[u8]) -> (res: bool)
    requires
        from <= b@.len(),
    ensures
        res == bytes_start_with(b@.skip(from as int), p@),
{
    let n = b.len();
    if p.len() > n - from {
        return false;
    }
    let mut i: usize = 0;
    while i < p.len()
        invariant
            n == b@.len(),
            from + p@.len() <= n,
            i <= p@.len(),
            forall|k: int| 0 <= k < i ==> b@[from + k] == p@[k],
        decreases p@.len() - i,
    {
        if b[from + i] != p[i] {
            assert(b@.skip(from as int).take(p@.len() as int)[i as int] != p@[i as int]);
            return false;
        }
        i = i + 1;
    }
    assert(b@.skip(from as int).take(p@.len() as int) =~= p@);
    true
}

/// Recognises PNG, JPEG, GIF and WebP images by their first bytes and gives
/// the file extension and MIME type.
pub fn image_signature(bytes: &[u8]) -> (res: Option<(&'static str, &'static str)>)
    ensures
        match res {
            Some((ext, mime)) => image_kind_spec(bytes@) == Some((ext@, mime@)),
            None => image_kind_spec(bytes@) is None,
        },
{
    assert(bytes@.skip(0) =~= bytes@);
    let png: [u8; 8] = [0x89, 0x50, 0x4e, 0x47, 0x0d, 0x0a, 0x1a, 0x0a];
    let jpeg: [u8; 3] = [0xff, 0xd8, 0xff];
    let gif87: [u8; 6] = [0x47, 0x49, 0x46, 0x38, 0x37, 0x61];
    let gif89: [u8; 6] = [0x47, 0x49, 0x46, 0x38, 0x39, 0x61];
    let riff: [u8; 4] = [0x52, 0x49, 0x46, 0x46];
    let webp: [u8; 4] = [0x57, 0x45, 0x42, 0x50];
    assert(png@ =~= png_magic());
    assert(jpeg@ =~= jpeg_magic());
    assert(gif87@ =~= gif87_magic());
    assert(gif89@ =~= gif89_magic());
    assert(riff@ =~= riff_magic());
    assert(webp@ =~= webp_magic());
    if starts_with_bytes(bytes, 0, png.as_slice()) {
        return Some(("png", "image/png"));
    }
    if starts_with_bytes(bytes, 0, jpeg.as_slice()) {
        return Some(("jpg", "image/jpeg"));
    }
    if starts_with_bytes(bytes, 0, gif87.as_slice()) || starts_with_bytes(bytes, 0, gif89.as_slice()) {
        return Some(("gif", "image/gif"));
    }
    if bytes.len() >= 12 && starts_with_bytes(bytes, 0, riff.as_slice()) {
        let w = starts_with_bytes(bytes, 8, webp.as_slice());
        proof {
            assert(bytes@.skip(8).take(4) =~= bytes@.subrange(8, 12));
        }
        if w {
            return Some(("webp", "image/webp"));
        }
    }
    None
}

// ---------------------------------------------------------------------------
// Hashing
// ---------------------------------------------------------------------------

/// The SHA-256 digest of `data`, as computed by the `sha2` crate.
pub uninterp spec fn sha256_spec(data: Seq<u8>) -> Seq<u8>;

/// Trusted: `sha2::Sha256::digest`. The result is the digest of `bytes`
/// (named [`sha256_spec`]); it is 32 bytes long, the output size of SHA-256.
#[verifier::external_body]
fn sha256_digest(bytes: &[u8]) -> (res: Vec<u8>)
    ensures
        res@ == sha256_spec(bytes@),
        res@.len() == 32,
{
    Sha256::digest(bytes).to_vec()
}

/// A lower-case hexadecimal digit.
pub open spec fn hex_digit(d: nat) -> char {
    if d < 10 {
        ((d + 48) as u8) as char
    } else {
        ((d + 87) as u8) as char
    }
}

/// Bytes as lower-case hexadecimal, two digits per byte.
pub open spec fn hex_spec(b: Seq<u8>) -> Seq<char>
    decreases b.len(),
{
    if b.len() == 0 {
        seq![]
    } else {
        hex_spec(b.drop_last()) + seq![
            hex_digit((b.last() / 16) as nat),
            hex_digit((b.last() % 16) as nat),
        ]
    }
}

fn hex_char(d: u8) -> (c: char)
    requires
        d < 16,
    ensures
        c == hex_digit(d as nat),
{
    if d < 10 {
        (d + 48) as char
    } else {
        (d + 87) as char
    }
}

/// Bytes as lower-case hexadecimal, two digits per byte.
pub fn hex_lower(bytes: &[u8]) -> (res: String)
    ensures
        res@ == hex_spec(bytes@),
        res@.len() == 2 * bytes@.len(),
{
    let mut out = String::new();
    for i in 0..bytes.len()
        invariant
            out@ == hex_spec(bytes@.take(i as int)),
            out@.len() == 2 * i,
    {
        let b = bytes[i];
        push_char(&mut out, hex_char(b / 16));
        push_char(&mut out, hex_char(b % 16));
        assert(bytes@.take(i + 1).drop_last() =~= bytes@.take(i as int));
    }
    assert(bytes@.take(bytes@.len() as int) =~= bytes@);
    out
}

/// The SHA-256 digest of `bytes` in lower-case hexadecimal: 64 digits.
pub fn sha256_hex(bytes: &[u8]) -> (res: String)
    ensures
        res@ == hex_spec(sha256_spec(bytes@)),
        res@.len() == 64,
{
    let digest = sha256_digest(bytes);
    hex_lower(digest.as_slice())
}

/// Every character of a hexadecimal text is a lower-case hexadecimal digit.
pub proof fn lemma_hex_digits(b: Seq<u8>)
    ensures
        forall|k: int|
            0 <= k < hex_spec(b).len() ==> {
                let c = #[trigger] hex_spec(b)[k];
                ('0' <= c && c <= '9') || ('a' <= c && c <= 'f')
            },
    decreases b.len(),
{
    if b.len() > 0 {
        lemma_hex_digits(b.drop_last());
        let hi = (b.last() / 16) as nat;
        let lo = (b.last() % 16) as nat;
        assert(hi < 10 ==> ((hi + 48) as u8) as int == hi + 48);
        assert(hi >= 10 ==> ((hi + 87) as u8) as int == hi + 87);
        assert(lo < 10 ==> ((lo + 48) as u8) as int == lo + 48);
        assert(lo >= 10 ==> ((lo + 87) as u8) as int == lo + 87);
        let t = hex_spec(b);
        let p = hex_spec(b.drop_last());
        assert forall|k: int| 0 <= k < t.len() implies {
            let c = #[trigger] t[k];
            ('0' <= c && c <= '9') || ('a' <= c && c <= 'f')
        } by {
            if k < p.len() {
                assert(t[k] == p[k]);
            }
        }
    }
}

// ---------------------------------------------------------------------------
// Asset records
// ---------------------------------------------------------------------------

/// A registered image asset.
pub struct AssetRecord {
    pub id: String,
    pub surface_id: String,
    pub file_name: String,
    /// Where the copy is kept, relative to the workspace, with `/` separators.
    pub stored_path: String,
    pub byte_len: u64,
    pub mime_type: String,
    /// SHA-256 of the file in lower-case hexadecimal.
    pub sha256: String,
    pub note: Option<String>,
    pub created_at: String,
}

/// The error for a file that is not a recognised image.
pub open spec fn not_image_message() -> Seq<char> {
    "asset must be an image file"@
}

/// The file name an asset is kept under: its identifier and extension.
pub open spec fn asset_file_name(id: Seq<char>, ext: Seq<char>) -> Seq<char> {
    id + seq!['.'] + ext
}

/// `r` records the image `bytes` of surface `surface_id` as asset `id`,
/// kept at `stored_path`.
pub open spec fn is_asset_record(
    surface_id: String,
    bytes: Seq<u8>,
    id: String,
    note: Option<String>,
    created_at: String,
    stored_path: Seq<char>,
    r: AssetRecord,
) -> bool {
    let (ext, mime) = image_kind_spec(bytes)->Some_0;
    &&& r.id == id
    &&& r.surface_id == surface_id
    &&& r.file_name@ == asset_file_name(id@, ext)
    &&& r.stored_path@ == stored_path
    &&& r.byte_len == bytes.len()
    &&& r.mime_type@ == mime
    &&& r.sha256@ == hex_spec(sha256_spec(bytes))
    &&& r.note == note
    &&& r.created_at == created_at
}

/// The file name for asset `id` of image `bytes`, with the extension and
/// MIME type, or the refusal when the bytes are not a recognised image.
pub fn asset_naming(bytes: &[u8], id: &str) -> (res: Result<(String, &'static str), String>)
    ensures
        res is Err <==> image_kind_spec(bytes@) is None,
        res matches Err(e) ==> e@ == not_image_message(),
        res matches Ok((name, mime)) ==> name@ == asset_file_name(
            id@,
            image_kind_spec(bytes@)->Some_0.0,
        ) && mime@ == image_kind_spec(bytes@)->Some_0.1,
{
    match image_signature(bytes) {
        None => Err(String::from_str("asset must be an image file")),
        Some((ext, mime)) => {
            let mut name = String::new();
            push_str(&mut name, id);
            push_char(&mut name, '.');
            push_str(&mut name, ext);
            assert(name@ =~= asset_file_name(id@, ext@));
            Ok((name, mime))
        },
    }
}

} // verus!
