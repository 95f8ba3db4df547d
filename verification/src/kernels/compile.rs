//! The way from kernel source to a loaded module: options, the cache of compiled text, and what
//! is done when a step fails.

use vstd::bytes::{
    lemma_auto_spec_u32_to_from_le_bytes, spec_u32_from_le_bytes, spec_u32_to_le_bytes,
    u32_from_le_bytes, u32_to_le_bytes,
};
use vstd::prelude::*;
use vstd::slice::slice_subrange;
use vstd::string::StringSliceAdditionalSpecFns;
use vstd::utf8::{decode_utf8, encode_utf8, encode_utf8_decode_utf8, encode_utf8_valid_utf8, valid_utf8};

use crate::error::KernelError;
use crate::text::{
    ascii_string, decimal, hex16, lemma_decimal_digits, lemma_signed_decimal_injective, push_bytes, push_decimal,
    push_hex, push_signed, same_bytes, signed_decimal, string_from_utf8,
};

verus! {

/// What the compiler is told apart from the source.
#[derive(Clone, Debug, PartialEq, Eq)]
pub struct CompileSettings {
    /// A directory of headers to look in before all others.
    pub cuda_headers: Option<String>,
}

/// Sets the directory of headers to look in first, or unsets it.
pub fn set_cuda_include(settings: &mut CompileSettings, path: Option<String>)
    ensures
        final(settings).cuda_headers == path,
{
    settings.cuda_headers = path;
}

/// Where headers are looked for, in order: the directory that was set, then those of the usual
/// ones that were found.
pub open spec fn header_dirs(first: Option<Seq<char>>, found: (bool, bool, bool)) -> Seq<Seq<char>> {
    let a = match first {
        Some(p) => seq![p],
        None => seq![],
    };
    let b = if found.0 { a.push("/opt/cuda/include"@) } else { a };
    let c = if found.1 { b.push("/usr/local/cuda/include"@) } else { b };
    if found.2 { c.push("/usr/include/cuda"@) } else { c }
}

/// Where headers are looked for; `found` says of `/opt/cuda/include`, `/usr/local/cuda/include`
/// and `/usr/include/cuda` whether the half-float header is there.
pub fn header_paths(settings: &CompileSettings, found: (bool, bool, bool)) -> (r: Vec<String>)
    ensures
        r@.map_values(|s: String| s@) == header_dirs(
            match settings.cuda_headers {
                Some(p) => Some(p@),
                None => None,
            },
            found,
        ),
{
    let ghost view = |s: String| s@;
    let mut dirs: Vec<String> = Vec::new();
    match &settings.cuda_headers {
        Some(p) => {
            dirs.push(p.clone());
        },
        None => {},
    }
    let ghost first: Option<Seq<char>> = match &settings.cuda_headers {
        Some(p) => Some(p@),
        None => None,
    };
    proof {
        assert(dirs@.map_values(view) =~= match first {
            Some(p) => seq![p],
            None => seq![],
        });
    }
    if found.0 {
        let ghost before = dirs@;
        dirs.push("/opt/cuda/include".to_owned());
        proof {
            assert(dirs@.map_values(view) =~= before.map_values(view).push("/opt/cuda/include"@));
        }
    }
    if found.1 {
        let ghost before = dirs@;
        dirs.push("/usr/local/cuda/include".to_owned());
        proof {
            assert(dirs@.map_values(view) =~= before.map_values(view).push(
                "/usr/local/cuda/include"@,
            ));
        }
    }
    if found.2 {
        let ghost before = dirs@;
        dirs.push("/usr/include/cuda".to_owned());
        proof {
            assert(dirs@.map_values(view) =~= before.map_values(view).push("/usr/include/cuda"@));
        }
    }
    dirs
}

/// Whether compiled text is kept, given what the switch for it is set to.
pub fn cache_enabled(switch: Option<&str>) -> (r: bool)
    ensures
        r == !(switch matches Some(s) && s.spec_bytes() == seq![48u8]),
{
    match switch {
        Some(s) => {
            let b = s.as_bytes();
            let off = b.len() == 1 && b[0] == 48;
            proof {
                if off {
                    assert(b@ =~= seq![48u8]);
                }
            }
            !off
        },
        None => true,
    }
}

/// The directory of the cache: a base, and the directories to descend into from there.
#[derive(Debug, PartialEq, Eq)]
pub struct CacheDir {
    pub base: String,
    /// `.cache` lies between the base and the rest.
    pub in_dot_cache: bool,
    /// The cache lies in `synaptix/nvrtc` under the base.
    pub in_synaptix: bool,
}

/// The directory of the cache: the one set for it, else below the user's cache directory, else
/// below the home directory; none where nothing is known.
pub fn cache_dir(explicit: Option<String>, xdg_cache: Option<String>, home: Option<String>) -> (r:
    Option<CacheDir>)
    ensures
        r == (match explicit {
            Some(d) => Some(CacheDir { base: d, in_dot_cache: false, in_synaptix: false }),
            None => match xdg_cache {
                Some(x) => Some(CacheDir { base: x, in_dot_cache: false, in_synaptix: true }),
                None => match home {
                    Some(h) => Some(CacheDir { base: h, in_dot_cache: true, in_synaptix: true }),
                    None => None,
                },
            },
        }),
{
    match explicit {
        Some(d) => Some(CacheDir { base: d, in_dot_cache: false, in_synaptix: false }),
        None => match xdg_cache {
            Some(x) => Some(CacheDir { base: x, in_dot_cache: false, in_synaptix: true }),
            None => match home {
                Some(h) => Some(CacheDir { base: h, in_dot_cache: true, in_synaptix: true }),
                None => None,
            },
        },
    }
}

/// The 64-bit FNV-1a hash.
pub open spec fn fnv1a(bytes: Seq<u8>) -> u64
    decreases bytes.len(),
{
    if bytes.len() == 0 {
        0xcbf29ce484222325
    } else {
        (fnv1a(bytes.drop_last()) ^ (bytes.last() as u64)).wrapping_mul(0x100000001b3)
    }
}

/// The hash that cache files are named after.
pub fn fnv1a64(bytes: &[u8]) -> (r: u64)
    ensures
        r == fnv1a(bytes@),
{
    let mut h: u64 = 0xcbf29ce484222325;
    let n: usize = bytes.len();
    let mut i: usize = 0;
    while i < n
        invariant
            i <= n,
            n == bytes@.len(),
            h == fnv1a(bytes@.take(i as int)),
        decreases n - i,
    {
        proof {
            assert(bytes@.take(i + 1).drop_last() =~= bytes@.take(i as int));
        }
        h = h ^ (bytes[i] as u64);
        h = h.wrapping_mul(0x100000001b3);
        i = i + 1;
    }
    proof {
        assert(bytes@.take(n as int) =~= bytes@);
    }
    h
}

/// The options, each closed by a unit separator.
pub open spec fn joined_options(options: Seq<Seq<u8>>) -> Seq<u8>
    decreases options.len(),
{
    if options.len() == 0 {
        seq![]
    } else {
        options[0].push(0x1fu8) + joined_options(options.skip(1))
    }
}

/// `nvrtc=`
pub open spec fn key_head() -> Seq<u8> {
    seq![110u8, 118, 114, 116, 99, 61]
}

/// `arch=`
pub open spec fn key_arch() -> Seq<u8> {
    seq![97u8, 114, 99, 104, 61]
}

/// Everything that the compiled text depends on: the compiler's version, the target, the options
/// and the source.
pub open spec fn full_key(
    version: (i32, i32),
    arch: Seq<u8>,
    options: Seq<Seq<u8>>,
    src: Seq<u8>,
) -> Seq<u8> {
    key_head() + (signed_decimal(version.0 as int).push(46u8) + (signed_decimal(
        version.1 as int,
    ).push(0x1fu8) + (key_arch() + (arch.push(0x1fu8) + (joined_options(options) + (seq![0x1eu8]
        + src))))))
}

/// The UTF-8 bytes of each string.
pub open spec fn bytes_of(strings: Seq<String>) -> Seq<Seq<u8>> {
    strings.map_values(|s: String| encode_utf8(s@))
}

/// The key that compiled text is kept under.
pub fn cache_key(version: (i32, i32), src: &str, options: &[String], arch: &str) -> (r: Vec<u8>)
    ensures
        r@ == full_key(version, arch.spec_bytes(), bytes_of(options@), src.spec_bytes()),
{
    let ghost opts = bytes_of(options@);
    let mut key: Vec<u8> = vec![110, 118, 114, 116, 99, 61];
    push_signed(&mut key, version.0);
    key.push(46);
    push_signed(&mut key, version.1);
    key.push(0x1f);
    let mark: Vec<u8> = vec![97, 114, 99, 104, 61];
    push_bytes(&mut key, mark.as_slice());
    push_bytes(&mut key, arch.as_bytes());
    key.push(0x1f);
    let ghost head = key@;
    proof {
        assert(head =~= key_head() + (signed_decimal(version.0 as int).push(46u8) + (signed_decimal(
            version.1 as int,
        ).push(0x1fu8) + (key_arch() + arch.spec_bytes().push(0x1fu8)))));
    }
    let n: usize = options.len();
    let mut i: usize = 0;
    proof {
        assert(opts.skip(0) =~= opts);
        assert(head + joined_options(opts) =~= key@ + joined_options(opts.skip(0)));
    }
    while i < n
        invariant
            i <= n,
            n == options@.len(),
            opts == bytes_of(options@),
            key@ + joined_options(opts.skip(i as int)) == head + joined_options(opts),
        decreases n - i,
    {
        let ghost before = key@;
        let o = options[i].as_str();
        push_bytes(&mut key, o.as_bytes());
        key.push(0x1f);
        proof {
            let rest = opts.skip(i as int);
            assert(rest[0] == encode_utf8(options@[i as int]@));
            assert(rest.skip(1) =~= opts.skip(i + 1));
            assert(key@ =~= before + rest[0].push(0x1fu8));
            assert(key@ + joined_options(opts.skip(i + 1)) =~= before + joined_options(rest));
        }
        i = i + 1;
    }
    proof {
        assert(opts.skip(n as int) =~= Seq::empty());
        assert(key@ =~= head + joined_options(opts));
    }
    key.push(0x1e);
    push_bytes(&mut key, src.as_bytes());
    proof {
        assert(key@ =~= full_key(version, arch.spec_bytes(), opts, src.spec_bytes()));
    }
    key
}

/// No unit separator and no record separator occurs.
pub open spec fn no_separator(s: Seq<u8>) -> bool {
    forall|i: int| 0 <= i < s.len() ==> #[trigger] s[i] != 0x1f && s[i] != 0x1e
}

/// What stands before the first `sep` is determined, and so is what stands after it.
proof fn lemma_split(a: Seq<u8>, x: Seq<u8>, b: Seq<u8>, y: Seq<u8>, sep: u8)
    requires
        a.push(sep) + x == b.push(sep) + y,
        forall|i: int| 0 <= i < a.len() ==> #[trigger] a[i] != sep,
        forall|i: int| 0 <= i < b.len() ==> #[trigger] b[i] != sep,
    ensures
        a == b,
        x == y,
{
    let l = a.push(sep) + x;
    let r = b.push(sep) + y;
    if a.len() < b.len() {
        assert(l[a.len() as int] == sep);
        assert(r[a.len() as int] == b[a.len() as int]);
        assert(false);
    }
    if b.len() < a.len() {
        assert(r[b.len() as int] == sep);
        assert(l[b.len() as int] == a[b.len() as int]);
        assert(false);
    }
    assert forall|i: int| 0 <= i < a.len() implies a[i] == b[i] by {
        assert(l[i] == a[i]);
        assert(r[i] == b[i]);
    }
    assert(a =~= b);
    assert(l.skip(a.len() as int + 1) =~= x);
    assert(r.skip(b.len() as int + 1) =~= y);
}

proof fn lemma_same_prefix(p: Seq<u8>, x: Seq<u8>, y: Seq<u8>)
    requires
        p + x == p + y,
    ensures
        x == y,
{
    assert((p + x).skip(p.len() as int) =~= x);
    assert((p + y).skip(p.len() as int) =~= y);
}

proof fn lemma_options_split(a: Seq<Seq<u8>>, x: Seq<u8>, b: Seq<Seq<u8>>, y: Seq<u8>)
    requires
        joined_options(a) + (seq![0x1eu8] + x) == joined_options(b) + (seq![0x1eu8] + y),
        forall|i: int| 0 <= i < a.len() ==> no_separator(#[trigger] a[i]),
        forall|i: int| 0 <= i < b.len() ==> no_separator(#[trigger] b[i]),
    ensures
        a == b,
        x == y,
    decreases a.len(),
{
    let l = joined_options(a) + (seq![0x1eu8] + x);
    let r = joined_options(b) + (seq![0x1eu8] + y);
    if a.len() == 0 && b.len() == 0 {
        assert(l =~= seq![0x1eu8] + x);
        assert(r =~= seq![0x1eu8] + y);
        lemma_same_prefix(seq![0x1eu8], x, y);
        assert(a =~= b);
    } else if a.len() == 0 {
        assert(l[0] == 0x1e);
        assert(no_separator(b[0]));
        if b[0].len() > 0 {
            assert(r[0] == b[0][0]);
        } else {
            assert(r[0] == 0x1f);
        }
        assert(false);
    } else if b.len() == 0 {
        assert(r[0] == 0x1e);
        assert(no_separator(a[0]));
        if a[0].len() > 0 {
            assert(l[0] == a[0][0]);
        } else {
            assert(l[0] == 0x1f);
        }
        assert(false);
    } else {
        let ra = joined_options(a.skip(1)) + (seq![0x1eu8] + x);
        let rb = joined_options(b.skip(1)) + (seq![0x1eu8] + y);
        assert(no_separator(a[0]));
        assert(no_separator(b[0]));
        assert(l =~= a[0].push(0x1fu8) + ra);
        assert(r =~= b[0].push(0x1fu8) + rb);
        lemma_split(a[0], ra, b[0], rb, 0x1f);
        assert forall|i: int| 0 <= i < a.skip(1).len() implies no_separator(
            #[trigger] a.skip(1)[i],
        ) by {
            assert(no_separator(a[i + 1]));
        }
        assert forall|i: int| 0 <= i < b.skip(1).len() implies no_separator(
            #[trigger] b.skip(1)[i],
        ) by {
            assert(no_separator(b[i + 1]));
        }
        lemma_options_split(a.skip(1), x, b.skip(1), y);
        assert(a =~= seq![a[0]] + a.skip(1));
        assert(b =~= seq![b[0]] + b.skip(1));
    }
}

/// The key determines everything that goes into it: as long as no target holds a unit separator and
/// no option holds either separator, two compilations under one key agree in compiler version,
/// target, options and source.
pub proof fn key_determines_input(
    v1: (i32, i32),
    arch1: Seq<u8>,
    opts1: Seq<Seq<u8>>,
    src1: Seq<u8>,
    v2: (i32, i32),
    arch2: Seq<u8>,
    opts2: Seq<Seq<u8>>,
    src2: Seq<u8>,
)
    requires
        full_key(v1, arch1, opts1, src1) == full_key(v2, arch2, opts2, src2),
        forall|i: int| 0 <= i < arch1.len() ==> #[trigger] arch1[i] != 0x1f,
        forall|i: int| 0 <= i < arch2.len() ==> #[trigger] arch2[i] != 0x1f,
        forall|i: int| 0 <= i < opts1.len() ==> no_separator(#[trigger] opts1[i]),
        forall|i: int| 0 <= i < opts2.len() ==> no_separator(#[trigger] opts2[i]),
    ensures
        v1 == v2,
        arch1 == arch2,
        opts1 == opts2,
        src1 == src2,
{
    let e1 = joined_options(opts1) + (seq![0x1eu8] + src1);
    let e2 = joined_options(opts2) + (seq![0x1eu8] + src2);
    let d1 = key_arch() + (arch1.push(0x1fu8) + e1);
    let d2 = key_arch() + (arch2.push(0x1fu8) + e2);
    let c1 = signed_decimal(v1.1 as int).push(0x1fu8) + d1;
    let c2 = signed_decimal(v2.1 as int).push(0x1fu8) + d2;
    let b1 = signed_decimal(v1.0 as int).push(46u8) + c1;
    let b2 = signed_decimal(v2.0 as int).push(46u8) + c2;
    lemma_same_prefix(key_head(), b1, b2);
    lemma_signed_bytes(v1.0 as int);
    lemma_signed_bytes(v2.0 as int);
    lemma_signed_bytes(v1.1 as int);
    lemma_signed_bytes(v2.1 as int);
    lemma_split(signed_decimal(v1.0 as int), c1, signed_decimal(v2.0 as int), c2, 46);
    lemma_split(signed_decimal(v1.1 as int), d1, signed_decimal(v2.1 as int), d2, 0x1f);
    lemma_signed_decimal_injective(v1.0 as int, v2.0 as int);
    lemma_signed_decimal_injective(v1.1 as int, v2.1 as int);
    lemma_same_prefix(key_arch(), arch1.push(0x1fu8) + e1, arch2.push(0x1fu8) + e2);
    lemma_split(arch1, e1, arch2, e2, 0x1f);
    lemma_options_split(opts1, src1, opts2, src2);
}

proof fn lemma_signed_bytes(n: int)
    ensures
        forall|i: int|
            0 <= i < signed_decimal(n).len() ==> #[trigger] signed_decimal(n)[i] == 45 || 48
                <= signed_decimal(n)[i] <= 57,
{
    let m: nat = if n < 0 { (-n) as nat } else { n as nat };
    lemma_decimal_digits(m);
    assert forall|i: int| 0 <= i < signed_decimal(n).len() implies #[trigger] signed_decimal(n)[i]
        == 45 || 48 <= signed_decimal(n)[i] <= 57 by {
        if n < 0 {
            if i > 0 {
                assert(signed_decimal(n)[i] == decimal(m)[i - 1]);
            }
        } else {
            assert(signed_decimal(n)[i] == decimal(m)[i]);
        }
    }
}

/// `SYNPTX1` and a zero byte.
pub open spec fn cache_magic() -> Seq<u8> {
    seq![83u8, 89, 78, 80, 84, 88, 49, 0]
}

/// A cache file: the magic bytes, then the key and the compiled text, each behind its length.
pub open spec fn cache_frame(key: Seq<u8>, ptx: Seq<u8>) -> Seq<u8> {
    cache_magic() + spec_u32_to_le_bytes(key.len() as u32) + key + spec_u32_to_le_bytes(
        ptx.len() as u32,
    ) + ptx
}

/// The compiled text in a cache file, if the file is whole and was written under `key`.
pub open spec fn frame_text(data: Seq<u8>, key: Seq<u8>) -> Option<Seq<u8>> {
    if data.len() < 12 || data.take(8) != cache_magic() {
        None
    } else {
        let klen = spec_u32_from_le_bytes(data.subrange(8, 12)) as int;
        if data.len() < 12 + klen || data.subrange(12, 12 + klen) != key || data.len() < 16 + klen {
            None
        } else {
            let plen = spec_u32_from_le_bytes(data.subrange(12 + klen, 16 + klen)) as int;
            if data.len() < 16 + klen + plen {
                None
            } else {
                Some(data.subrange(16 + klen, 16 + klen + plen))
            }
        }
    }
}

/// The compiled text that the cache file `data` holds under `key`; none where the file is not
/// whole, was written under another key, or does not hold text.
pub fn cache_read(data: &[u8], key: &[u8]) -> (r: Option<String>)
    ensures
        match r {
            Some(s) => {
                &&& frame_text(data@, key@) matches Some(t)
                &&& valid_utf8(t)
                &&& s@ == decode_utf8(t)
            },
            None => match frame_text(data@, key@) {
                Some(t) => !valid_utf8(t),
                None => true,
            },
        },
{
    let magic: Vec<u8> = vec![83, 89, 78, 80, 84, 88, 49, 0];
    proof {
        assert(magic@ =~= cache_magic());
    }
    let n: usize = data.len();
    if n < 12 {
        return None;
    }
    proof {
        assert(data@.subrange(0, 8) =~= data@.take(8));
    }
    if !same_bytes(slice_subrange(data, 0, 8), magic.as_slice()) {
        return None;
    }
    let klen: usize = u32_from_le_bytes(slice_subrange(data, 8, 12)) as usize;
    if n - 12 < klen {
        return None;
    }
    if !same_bytes(slice_subrange(data, 12, 12 + klen), key) {
        return None;
    }
    if n - 12 - klen < 4 {
        return None;
    }
    let plen: usize = u32_from_le_bytes(slice_subrange(data, 12 + klen, 16 + klen)) as usize;
    if n - 16 - klen < plen {
        return None;
    }
    let mut ptx: Vec<u8> = Vec::new();
    push_bytes(&mut ptx, slice_subrange(data, 16 + klen, 16 + klen + plen));
    proof {
        assert(ptx@ =~= data@.subrange(16 + klen, 16 + klen + plen));
    }
    string_from_utf8(ptx)
}

/// The cache file for `ptx` under `key`.
pub fn cache_write(key: &[u8], ptx: &str) -> (r: Vec<u8>)
    ensures
        r@ == cache_frame(key@, ptx.spec_bytes()),
{
    let mut buf: Vec<u8> = vec![83, 89, 78, 80, 84, 88, 49, 0];
    let body = ptx.as_bytes();
    proof {
        assert(buf@ =~= cache_magic());
    }
    let klen = u32_to_le_bytes(key.len() as u32);
    push_bytes(&mut buf, klen.as_slice());
    push_bytes(&mut buf, key);
    let plen = u32_to_le_bytes(body.len() as u32);
    push_bytes(&mut buf, plen.as_slice());
    push_bytes(&mut buf, body);
    buf
}

/// What was written under a key is read back under it, and under no other key.
pub proof fn cache_round_trip(key: Seq<u8>, ptx: Seq<char>, other: Seq<u8>)
    requires
        key.len() <= u32::MAX,
        encode_utf8(ptx).len() <= u32::MAX,
    ensures
        frame_text(cache_frame(key, encode_utf8(ptx)), key) == Some(encode_utf8(ptx)),
        valid_utf8(encode_utf8(ptx)),
        decode_utf8(encode_utf8(ptx)) == ptx,
        other != key ==> frame_text(cache_frame(key, encode_utf8(ptx)), other) is None,
{
    let body = encode_utf8(ptx);
    let data = cache_frame(key, body);
    let kl = spec_u32_to_le_bytes(key.len() as u32);
    let pl = spec_u32_to_le_bytes(body.len() as u32);
    lemma_auto_spec_u32_to_from_le_bytes();
    assert(kl.len() == 4 && pl.len() == 4);
    assert(data.take(8) =~= cache_magic());
    assert(data.subrange(8, 12) =~= kl);
    let klen = key.len() as int;
    assert(data.subrange(12, 12 + klen) =~= key);
    assert(data.subrange(12 + klen, 16 + klen) =~= pl);
    assert(data.subrange(16 + klen, 16 + klen + body.len()) =~= body);
    encode_utf8_valid_utf8(ptx);
    encode_utf8_decode_utf8(ptx);
}

/// The name of a cache file: the module's tag, a hyphen, the sixteen hexadecimal digits of the
/// key's hash, and `.ptx`.
pub open spec fn file_name(tag: Seq<u8>, key: Seq<u8>) -> Seq<u8> {
    tag + seq![45u8] + hex16(fnv1a(key) as nat, 16) + seq![46u8, 112, 116, 120]
}

/// The name of the cache file for `key`.
pub fn cache_file_name(tag: &str, key: &[u8]) -> (r: Vec<u8>)
    ensures
        r@ == file_name(tag.spec_bytes(), key@),
{
    let mut name: Vec<u8> = Vec::new();
    push_bytes(&mut name, tag.as_bytes());
    name.push(45);
    push_hex(&mut name, fnv1a64(key), 16);
    name.push(46);
    name.push(112);
    name.push(116);
    name.push(120);
    proof {
        assert(name@ =~= file_name(tag.spec_bytes(), key@));
    }
    name
}

/// What the preprocessor is told of a target.
#[derive(Clone, Copy, Debug, PartialEq, Eq, Structural)]
pub struct ArchDefines {
    /// Ten times the major version and the minor version of the target.
    pub cc: u32,
    /// Whether instructions that only this very target has may be used.
    pub arch_a: u8,
}

/// What the preprocessor is told of the target `arch` for the module `tag`, where `parsed` is the
/// reading of the target: its version, and whether it is one with instructions of its own.
pub open spec fn target_defines(
    arch: &'static str,
    tag: &'static str,
    parsed: Option<((u32, u32), bool)>,
) -> Result<ArchDefines, KernelError> {
    match parsed {
        None => Err(KernelError::CudaNames("nvrtc {}: цель '{}' не разобрана", tag, arch)),
        Some((cc, accel)) => Ok(
            ArchDefines {
                cc: (cc.0 * 10 + cc.1) as u32,
                arch_a: if accel && cc.0 >= 9 { 1 } else { 0 },
            },
        ),
    }
}

/// What the preprocessor is told of the target `arch`, of which `parsed` is the reading.
pub fn defines_for(
    arch: &'static str,
    tag: &'static str,
    parsed: Option<((u32, u32), bool)>,
) -> (r: Result<ArchDefines, KernelError>)
    requires
        parsed matches Some((cc, _)) ==> cc.0 * 10 + cc.1 <= u32::MAX,
    ensures
        r == target_defines(arch, tag, parsed),
{
    match parsed {
        None => Err(KernelError::CudaNames("nvrtc {}: цель '{}' не разобрана", tag, arch)),
        Some((cc, accel)) => Ok(
            ArchDefines {
                cc: cc.0 * 10 + cc.1,
                arch_a: if accel && cc.0 >= 9 {
                    1
                } else {
                    0
                },
            },
        ),
    }
}

/// `-DSYN_CC=` and the version.
pub open spec fn cc_option(defines: ArchDefines) -> Seq<u8> {
    seq![45u8, 68, 83, 89, 78, 95, 67, 67, 61] + decimal(defines.cc as nat)
}

/// `-DSYN_ARCH_A=` and the flag.
pub open spec fn arch_a_option(defines: ArchDefines) -> Seq<u8> {
    seq![45u8, 68, 83, 89, 78, 95, 65, 82, 67, 72, 95, 65, 61] + decimal(defines.arch_a as nat)
}

/// The two options that stand for `defines`.
pub fn define_options(defines: ArchDefines) -> (r: (String, String))
    ensures
        encode_utf8(r.0@) == cc_option(defines),
        encode_utf8(r.1@) == arch_a_option(defines),
{
    let mut cc: Vec<u8> = vec![45, 68, 83, 89, 78, 95, 67, 67, 61];
    push_decimal(&mut cc, defines.cc as u64);
    let mut aa: Vec<u8> = vec![45, 68, 83, 89, 78, 95, 65, 82, 67, 72, 95, 65, 61];
    push_decimal(&mut aa, defines.arch_a as u64);
    proof {
        assert(cc@ =~= cc_option(defines));
        assert(aa@ =~= arch_a_option(defines));
        lemma_decimal_digits(defines.cc as nat);
        lemma_decimal_digits(defines.arch_a as nat);
        let h0 = seq![45u8, 68, 83, 89, 78, 95, 67, 67, 61];
        let h1 = seq![45u8, 68, 83, 89, 78, 95, 65, 82, 67, 72, 95, 65, 61];
        assert forall|i: int| 0 <= i < cc@.len() implies #[trigger] cc@[i] < 128 by {
            if i >= 9 {
                assert(cc@[i] == decimal(defines.cc as nat)[i - 9]);
            } else {
                assert(cc@[i] == h0[i]);
            }
        }
        assert forall|i: int| 0 <= i < aa@.len() implies #[trigger] aa@[i] < 128 by {
            if i >= 13 {
                assert(aa@[i] == decimal(defines.arch_a as nat)[i - 13]);
            } else {
                assert(aa@[i] == h1[i]);
            }
        }
    }
    (ascii_string(cc), ascii_string(aa))
}

/// What a compilation depends on apart from source, options and target.
#[derive(Debug, PartialEq, Eq)]
pub struct CompileEnv {
    pub settings: CompileSettings,
    /// Which of the usual directories hold headers.
    pub found: (bool, bool, bool),
    /// Whether compiled text is kept.
    pub cache: bool,
    /// Where it is kept.
    pub dir: Option<CacheDir>,
    /// The compiler's version.
    pub version: (i32, i32),
}

/// The place of one compiled text in the cache.
#[derive(Debug, PartialEq, Eq)]
pub struct CacheSlot {
    pub dir: CacheDir,
    /// The file's name, in UTF-8.
    pub file: Vec<u8>,
    pub key: Vec<u8>,
}

/// What the compiler is handed with the source, and where the text is kept.
#[derive(Debug, PartialEq, Eq)]
pub struct CompileJob {
    pub headers: Vec<String>,
    pub options: Vec<String>,
    pub slot: Option<CacheSlot>,
}

/// `-lineinfo`
pub open spec fn line_option() -> Seq<u8> {
    seq![45u8, 108, 105, 110, 101, 105, 110, 102, 111]
}

/// `job` compiles `src` for `arch` under `options` and with line numbers. Its place in the cache
/// is that of the key of just these, and it has one exactly where text is kept somewhere.
pub open spec fn is_job(
    job: CompileJob,
    src: Seq<u8>,
    tag: Seq<u8>,
    options: Seq<Seq<u8>>,
    arch: Seq<u8>,
    env: CompileEnv,
) -> bool {
    let first: Option<Seq<char>> = match env.settings.cuda_headers {
        Some(p) => Some(p@),
        None => None,
    };
    let all = options.push(line_option());
    &&& job.headers@.map_values(|s: String| s@) == header_dirs(first, env.found)
    &&& bytes_of(job.options@) == all
    &&& match job.slot {
        Some(slot) => {
            &&& env.cache
            &&& env.dir == Some(slot.dir)
            &&& slot.key@ == full_key(env.version, arch, all, src)
            &&& slot.file@ == file_name(tag, slot.key@)
        },
        None => !env.cache || env.dir is None,
    }
}

/// The first action for `job`.
pub open spec fn job_start(job: CompileJob) -> CompileAction {
    if job.slot is Some {
        CompileAction::ReadCache
    } else {
        CompileAction::Compile { store: false }
    }
}

/// How `src` is compiled, and what is done first.
pub fn compile_to_ptx(
    src: &str,
    tag: &str,
    options: Vec<String>,
    arch: &str,
    env: &CompileEnv,
) -> (r: (CompileJob, CompileAction))
    ensures
        is_job(
            r.0,
            src.spec_bytes(),
            tag.spec_bytes(),
            bytes_of(options@),
            arch.spec_bytes(),
            *env,
        ),
        r.1 == job_start(r.0),
{
    let ghost given = bytes_of(options@);
    let headers = header_paths(&env.settings, env.found);
    let mut options = options;
    let line: Vec<u8> = vec![45, 108, 105, 110, 101, 105, 110, 102, 111];
    proof {
        assert(line@ =~= line_option());
    }
    options.push(ascii_string(line));
    proof {
        assert(bytes_of(options@) =~= given.push(line_option()));
    }
    let slot: Option<CacheSlot> = if env.cache {
        match &env.dir {
            Some(d) => {
                let key = cache_key(env.version, src, options.as_slice(), arch);
                let file = cache_file_name(tag, key.as_slice());
                let dir = CacheDir {
                    base: d.base.clone(),
                    in_dot_cache: d.in_dot_cache,
                    in_synaptix: d.in_synaptix,
                };
                Some(CacheSlot { dir, file, key })
            },
            None => None,
        }
    } else {
        None
    };
    let action = compile_start(slot.is_some());
    (CompileJob { headers, options, slot }, action)
}

/// `options` and behind them those that stand for `defines`.
fn with_defines(options: Vec<String>, defines: ArchDefines) -> (r: Vec<String>)
    ensures
        bytes_of(r@) == bytes_of(options@).push(cc_option(defines)).push(arch_a_option(defines)),
{
    let ghost before = bytes_of(options@);
    let mut options = options;
    let (cc, aa) = define_options(defines);
    options.push(cc);
    options.push(aa);
    proof {
        assert(bytes_of(options@) =~= before.push(cc_option(defines)).push(arch_a_option(defines)));
    }
    options
}

/// How `src` is compiled for the target `arch`, of which `parsed` is the reading; no module is
/// loaded. The target's options follow `extra`.
pub fn compile_ptx_only(
    src: &str,
    tag: &'static str,
    extra: Vec<String>,
    arch: &'static str,
    parsed: Option<((u32, u32), bool)>,
    env: &CompileEnv,
) -> (r: Result<(CompileJob, CompileAction), KernelError>)
    requires
        parsed matches Some((cc, _)) ==> cc.0 * 10 + cc.1 <= u32::MAX,
    ensures
        match target_defines(arch, tag, parsed) {
            Ok(d) => {
                &&& r is Ok
                &&& is_job(
                    r->Ok_0.0,
                    src.spec_bytes(),
                    tag.spec_bytes(),
                    bytes_of(extra@).push(cc_option(d)).push(arch_a_option(d)),
                    arch.spec_bytes(),
                    *env,
                )
                &&& r->Ok_0.1 == job_start(r->Ok_0.0)
            },
            Err(e) => r == Err::<(CompileJob, CompileAction), KernelError>(e),
        },
{
    match defines_for(arch, tag, parsed) {
        Ok(d) => Ok(compile_to_ptx(src, tag, with_defines(extra, d), arch, env)),
        Err(e) => Err(e),
    }
}

/// The target of a module.
#[derive(Clone, Copy, Debug, PartialEq, Eq)]
pub enum ModuleTarget {
    /// A target that was asked for, as read.
    Given(Option<((u32, u32), bool)>),
    /// The target of the device.
    Device(ArchDefines),
}

/// What the preprocessor is told of a module's target.
pub open spec fn module_defines(
    arch: &'static str,
    tag: &'static str,
    target: ModuleTarget,
) -> Result<ArchDefines, KernelError> {
    match target {
        ModuleTarget::Given(parsed) => target_defines(arch, tag, parsed),
        ModuleTarget::Device(d) => Ok(d),
    }
}

/// How the module `src` is compiled for `arch`, the name of `target`. The target's options follow
/// `extra`. The module is loaded by [`compile_next`]'s rules.
pub fn compile_module_with_opts(
    src: &str,
    tag: &'static str,
    extra: Vec<String>,
    arch: &'static str,
    target: ModuleTarget,
    env: &CompileEnv,
) -> (r: Result<(CompileJob, CompileAction), KernelError>)
    requires
        target matches ModuleTarget::Given(Some((cc, _))) ==> cc.0 * 10 + cc.1 <= u32::MAX,
    ensures
        match module_defines(arch, tag, target) {
            Ok(d) => {
                &&& r is Ok
                &&& is_job(
                    r->Ok_0.0,
                    src.spec_bytes(),
                    tag.spec_bytes(),
                    bytes_of(extra@).push(cc_option(d)).push(arch_a_option(d)),
                    arch.spec_bytes(),
                    *env,
                )
                &&& r->Ok_0.1 == job_start(r->Ok_0.0)
            },
            Err(e) => r == Err::<(CompileJob, CompileAction), KernelError>(e),
        },
{
    match target {
        ModuleTarget::Given(parsed) => compile_ptx_only(src, tag, extra, arch, parsed, env),
        ModuleTarget::Device(d) => Ok(
            compile_to_ptx(src, tag, with_defines(extra, d), arch, env),
        ),
    }
}

/// What is to be done next on the way from source to module.
#[derive(Clone, Copy, Debug, PartialEq, Eq, Structural)]
pub enum CompileAction {
    /// Look the key up in the cache.
    ReadCache,
    /// Compile; with `store`, keep the text under the key.
    Compile { store: bool },
    /// Load the text; `cached` says that it came from the cache.
    Load { cached: bool, store: bool },
    Done,
    Fail,
}

/// What came of an action.
#[derive(Clone, Copy, Debug, PartialEq, Eq, Structural)]
pub enum CompileEvent {
    Succeeded,
    Failed,
}

/// The first action: the cache is read if there is one.
pub fn compile_start(cache: bool) -> (r: CompileAction)
    ensures
        r == (if cache { CompileAction::ReadCache } else { CompileAction::Compile { store: false } }),
{
    if cache {
        CompileAction::ReadCache
    } else {
        CompileAction::Compile { store: false }
    }
}

/// What follows `action` after `event`.
pub open spec fn compile_after(action: CompileAction, event: CompileEvent) -> CompileAction {
    let ok = event == CompileEvent::Succeeded;
    match action {
        CompileAction::ReadCache => if ok {
            CompileAction::Load { cached: true, store: true }
        } else {
            CompileAction::Compile { store: true }
        },
        CompileAction::Compile { store } => if ok {
            CompileAction::Load { cached: false, store }
        } else {
            CompileAction::Fail
        },
        CompileAction::Load { cached, store } => if ok {
            CompileAction::Done
        } else if cached {
            CompileAction::Compile { store }
        } else {
            CompileAction::Fail
        },
        CompileAction::Done => CompileAction::Done,
        CompileAction::Fail => CompileAction::Fail,
    }
}

/// The action after `action` came out as `event`. Text from the cache that does not load is
/// compiled afresh and stored over.
pub fn compile_next(action: CompileAction, event: CompileEvent) -> (r: CompileAction)
    ensures
        r == compile_after(action, event),
{
    let ok = event == CompileEvent::Succeeded;
    match action {
        CompileAction::ReadCache => if ok {
            CompileAction::Load { cached: true, store: true }
        } else {
            CompileAction::Compile { store: true }
        },
        CompileAction::Compile { store } => if ok {
            CompileAction::Load { cached: false, store }
        } else {
            CompileAction::Fail
        },
        CompileAction::Load { cached, store } => if ok {
            CompileAction::Done
        } else if cached {
            CompileAction::Compile { store }
        } else {
            CompileAction::Fail
        },
        CompileAction::Done => CompileAction::Done,
        CompileAction::Fail => CompileAction::Fail,
    }
}

/// Whatever the outcomes, compilation is at an end after four actions, and fails only where the
/// compiler failed or fresh text did not load.
pub proof fn compile_ends(
    cache: bool,
    e1: CompileEvent,
    e2: CompileEvent,
    e3: CompileEvent,
    e4: CompileEvent,
)
    ensures
        ({
            let a0 = if cache {
                CompileAction::ReadCache
            } else {
                CompileAction::Compile { store: false }
            };
            let a1 = compile_after(a0, e1);
            let a2 = compile_after(a1, e2);
            let a3 = compile_after(a2, e3);
            let a4 = compile_after(a3, e4);
            &&& a4 == CompileAction::Done || a4 == CompileAction::Fail
            &&& a1 == CompileAction::Fail ==> a0 is Compile
            &&& a2 == CompileAction::Fail && a1 != CompileAction::Fail ==> a1 is Compile || (
            a1 matches CompileAction::Load { cached, .. } && !cached)
            &&& a3 == CompileAction::Fail && a2 != CompileAction::Fail ==> a2 is Compile || (
            a2 matches CompileAction::Load { cached, .. } && !cached)
            &&& a4 == CompileAction::Fail && a3 != CompileAction::Fail ==> (
            a3 matches CompileAction::Load { cached, .. } && !cached)
        }),
{
}

} // verus!
