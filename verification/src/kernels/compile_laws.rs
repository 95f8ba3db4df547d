//! What the compiler is told, and under which name its text is kept.

use vstd::prelude::*;

use crate::kernels::compile::{
    arch_a_option,
    cache_magic,
    cc_option,
    file_name,
    fnv1a,
    header_dirs,
    is_job,
    job_start,
    key_determines_input,
    key_arch,
    key_head,
    line_option,
    no_separator,
    module_defines,
    target_defines,
    ArchDefines,
    CompileAction,
    CompileEnv,
    CompileJob,
    ModuleTarget,
};
use crate::text::hex16;
use crate::text_laws::{decimal_reads_back, hex_reads_back, is_hex, read_number};

verus! {

/// The bytes are those of a text of plain letters.
pub open spec fn spells(s: Seq<u8>, text: Seq<char>) -> bool {
    &&& s.len() == text.len()
    &&& forall|i: int| 0 <= i < s.len() ==> #[trigger] s[i] as int == text[i] as int
}

/// The options define `SYN_CC` and `SYN_ARCH_A` as the decimal of their numbers; the others and the
/// marks of a key and of a kept file are fixed texts.
pub proof fn options_say_the_target(d: ArchDefines)
    ensures
        spells(cc_option(d).take(9), "-DSYN_CC="@),
        read_number(cc_option(d).skip(9), 10) == d.cc,
        spells(arch_a_option(d).take(13), "-DSYN_ARCH_A="@),
        read_number(arch_a_option(d).skip(13), 10) == d.arch_a,
        spells(line_option(), "-lineinfo"@),
        spells(key_head(), "nvrtc="@),
        spells(key_arch(), "arch="@),
        spells(cache_magic(), "SYNPTX1\0"@),
{
    reveal_strlit("-DSYN_CC=");
    reveal_strlit("-DSYN_ARCH_A=");
    reveal_strlit("-lineinfo");
    reveal_strlit("nvrtc=");
    reveal_strlit("arch=");
    reveal_strlit("SYNPTX1\0");
    decimal_reads_back(d.cc as nat);
    decimal_reads_back(d.arch_a as nat);
    assert(cc_option(d).skip(9) =~= crate::text::decimal(d.cc as nat));
    assert(arch_a_option(d).skip(13) =~= crate::text::decimal(d.arch_a as nat));
}

/// The version of a target is told apart from every other with one digit behind the dot, and what only
/// this very target has is used exactly where it was asked for from version nine on.
pub proof fn defines_tell_targets_apart(
    arch: &'static str,
    tag: &'static str,
    cc: (u32, u32),
    accel: bool,
)
    requires
        cc.1 < 10,
        cc.0 * 10 + cc.1 <= u32::MAX,
    ensures
        target_defines(arch, tag, None) is Err,
        target_defines(arch, tag, Some((cc, accel))) matches Ok(d) && {
            &&& d.cc / 10 == cc.0 && d.cc % 10 == cc.1
            &&& d.arch_a == 0 || d.arch_a == 1
            &&& d.arch_a == 1 <==> accel && d.cc >= 90
        },
        module_defines(arch, tag, ModuleTarget::Given(Some((cc, accel)))) == target_defines(
            arch,
            tag,
            Some((cc, accel)),
        ),
        forall|d: ArchDefines| #[trigger]
            module_defines(arch, tag, ModuleTarget::Device(d)) is Ok && module_defines(
                arch,
                tag,
                ModuleTarget::Device(d),
            )->Ok_0 == d,
{
}

/// The directory that was given is looked in first, and behind it the usual ones that are there, and no
/// other.
pub proof fn headers_are_looked_up_in_order(first: Option<Seq<char>>, found: (bool, bool, bool))
    ensures
        ({
            let dirs = header_dirs(first, found);
            let own: int = if first is Some { 1 } else { 0 };
            let a: int = if found.0 { 1 } else { 0 };
            let b: int = if found.1 { 1 } else { 0 };
            let c: int = if found.2 { 1 } else { 0 };
            &&& dirs.len() == own + a + b + c
            &&& first matches Some(p) ==> dirs[0] == p
            &&& found.0 ==> dirs[own] == "/opt/cuda/include"@
            &&& found.1 ==> dirs[own + a] == "/usr/local/cuda/include"@
            &&& found.2 ==> dirs[own + a + b] == "/usr/include/cuda"@
        }),
{
}

/// A kept file bears its tag, a hyphen, sixteen digits that stand for the hash of its key, and `.ptx`.
pub proof fn file_name_says_the_hash(tag: Seq<u8>, key: Seq<u8>)
    ensures
        ({
            let name = file_name(tag, key);
            let n = tag.len() as int;
            let digits = name.subrange(n + 1, n + 17);
            &&& name.len() == n + 21
            &&& name.take(n) =~= tag
            &&& spells(name.subrange(n, n + 1), "-"@)
            &&& forall|i: int| 0 <= i < 16 ==> is_hex(#[trigger] digits[i])
            &&& read_number(digits, 16) == fnv1a(key)
            &&& spells(name.skip(n + 17), ".ptx"@)
        }),
{
    reveal_strlit("-");
    reveal_strlit(".ptx");
    let v = fnv1a(key) as nat;
    assert(v < vstd::arithmetic::power::pow(16, 16)) by {
        reveal_with_fuel(vstd::arithmetic::power::pow, 17);
        assert(vstd::arithmetic::power::pow(16, 16) == 0x1_0000_0000_0000_0000);
    }
    hex_reads_back(v, 16);
    let n = tag.len() as int;
    assert(file_name(tag, key).subrange(n + 1, n + 17) =~= hex16(v, 16));
}

proof fn lemma_odd_factor(x: int, y: int)
    requires
        0 <= x < 0x1_0000_0000_0000_0000,
        0 <= y < 0x1_0000_0000_0000_0000,
        (x * 0x100000001b3) % 0x1_0000_0000_0000_0000 == (y * 0x100000001b3) % 0x1_0000_0000_0000_0000,
    ensures
        x == y,
{
    let m: int = 0x1_0000_0000_0000_0000;
    let p: int = 0x100000001b3;
    let inv: int = 0xce965057aff6957b;
    let over: int = 0xce9650590f;
    assert(p * inv == 1 + over * m);
    let (a, b) = ((x * p) / m, (y * p) / m);
    vstd::arithmetic::div_mod::lemma_fundamental_div_mod(x * p, m);
    vstd::arithmetic::div_mod::lemma_fundamental_div_mod(y * p, m);
    let (d, e) = (x - y, a - b);
    assert(d * p == e * m) by (nonlinear_arith)
        requires
            x * p - y * p == m * a - m * b,
            d == x - y,
            e == a - b,
    ;
    assert(d * (p * inv) == (e * inv) * m) by (nonlinear_arith)
        requires
            d * p == e * m,
    ;
    let t = e * inv - d * over;
    assert(d == t * m) by (nonlinear_arith)
        requires
            d * (p * inv) == (e * inv) * m,
            p * inv == 1 + over * m,
            t == e * inv - d * over,
    ;
    assert(d == 0) by (nonlinear_arith)
        requires
            d == t * m,
            -m < d < m,
            m > 0,
    ;
}

/// Keys that differ in their last byte alone are never kept under one name.
pub proof fn hash_tells_last_bytes_apart(key: Seq<u8>, a: u8, b: u8)
    ensures
        fnv1a(key.push(a)) == fnv1a(key.push(b)) ==> a == b,
{
    assert(key.push(a).drop_last() =~= key);
    assert(key.push(b).drop_last() =~= key);
    let h = fnv1a(key);
    if fnv1a(key.push(a)) == fnv1a(key.push(b)) {
        lemma_odd_factor((h ^ (a as u64)) as int, (h ^ (b as u64)) as int);
        assert(h ^ (a as u64) == h ^ (b as u64) ==> a == b) by (bit_vector);
    }
}

/// Two jobs look under one key only if they are of one source, one target and the same options, by one
/// version of the compiler. A job looks for kept text exactly where text is kept and there is a place
/// for it; otherwise it compiles and keeps nothing.
pub proof fn jobs_of_one_key_are_one(
    a: CompileJob,
    b: CompileJob,
    src: (Seq<u8>, Seq<u8>),
    tag: (Seq<u8>, Seq<u8>),
    options: (Seq<Seq<u8>>, Seq<Seq<u8>>),
    arch: (Seq<u8>, Seq<u8>),
    env: (CompileEnv, CompileEnv),
)
    requires
        is_job(a, src.0, tag.0, options.0, arch.0, env.0),
        is_job(b, src.1, tag.1, options.1, arch.1, env.1),
        no_separator(arch.0),
        no_separator(arch.1),
        forall|i: int| 0 <= i < options.0.len() ==> no_separator(#[trigger] options.0[i]),
        forall|i: int| 0 <= i < options.1.len() ==> no_separator(#[trigger] options.1[i]),
    ensures
        a.slot is Some && b.slot is Some && a.slot->0.key@ == b.slot->0.key@ ==> {
            &&& src.0 == src.1 && arch.0 == arch.1 && options.0 == options.1
            &&& env.0.version == env.1.version
            &&& tag.0 == tag.1 ==> a.slot->0.file@ == b.slot->0.file@
        },
        job_start(a) == CompileAction::ReadCache <==> env.0.cache && env.0.dir is Some,
        job_start(a) != CompileAction::ReadCache ==> job_start(a) == (CompileAction::Compile { store: false }),
        a.options@.len() == options.0.len() + 1,
{
    let (x, y) = (options.0.push(line_option()), options.1.push(line_option()));
    assert(crate::kernels::compile::bytes_of(a.options@) == x);
    assert(a.options@.len() == x.len());
    if a.slot is Some && b.slot is Some && a.slot->0.key@ == b.slot->0.key@ {
        assert(no_separator(line_option()));
        assert forall|i: int| 0 <= i < x.len() implies no_separator(#[trigger] x[i]) by {
            if i < options.0.len() {
                assert(x[i] == options.0[i]);
            }
        }
        assert forall|i: int| 0 <= i < y.len() implies no_separator(#[trigger] y[i]) by {
            if i < options.1.len() {
                assert(y[i] == options.1[i]);
            }
        }
        key_determines_input(env.0.version, arch.0, x, src.0, env.1.version, arch.1, y, src.1);
        assert(x.drop_last() =~= options.0);
        assert(y.drop_last() =~= options.1);
    }
}

} // verus!
