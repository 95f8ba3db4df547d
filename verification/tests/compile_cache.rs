use synaptix_kernels_cuda::error::KernelError;
use synaptix_kernels_cuda::kernels::compile::{
    cache_dir, cache_enabled, cache_file_name, cache_key, cache_read, cache_write, compile_module_with_opts,
    compile_next, compile_ptx_only, compile_start, compile_to_ptx, define_options, defines_for, fnv1a64,
    header_paths, set_cuda_include, ArchDefines, CacheDir, CompileAction, CompileEnv, CompileEvent,
    CompileSettings, ModuleTarget,
};
use synaptix_kernels_cuda::text::{ascii_string, push_decimal, push_hex, push_signed};

fn text(bytes: &[u8]) -> String {
    String::from_utf8(bytes.to_vec()).unwrap()
}

fn env(cache: bool, dir: Option<&str>) -> CompileEnv {
    CompileEnv {
        settings: CompileSettings { cuda_headers: Some("/h".to_string()) },
        found: (false, true, false),
        cache,
        dir: cache_dir(dir.map(|d| d.to_string()), None, None),
        version: (12, 8),
    }
}

#[test]
fn cache_roundtrip_and_key_mismatch() {
    let key = cache_key((12, 8), "__global__ void k(){}", &["-O3".into()], "sm_80");
    assert_eq!(cache_read(&[], &key), None);
    let file = cache_write(&key, "// ptx body");
    assert_eq!(cache_read(&file, &key).as_deref(), Some("// ptx body"));
    let other = cache_key((12, 8), "__global__ void k2(){}", &["-O3".into()], "sm_80");
    assert_eq!(cache_read(&file, &other), None);
}

#[test]
fn cache_file_bytes() {
    let file = cache_write(b"k", "pq");
    assert_eq!(file, b"SYNPTX1\0\x01\0\0\0k\x02\0\0\0pq".to_vec());
    for n in 0..file.len() {
        assert_eq!(cache_read(&file[..n], b"k"), None);
    }
    let mut longer = file.clone();
    longer.push(7);
    assert_eq!(cache_read(&longer, b"k").as_deref(), Some("pq"));
    let mut magic = file.clone();
    magic[0] = b'X';
    assert_eq!(cache_read(&magic, b"k"), None);
    let mut torn = file.clone();
    torn[file.len() - 1] = 0xff;
    assert_eq!(cache_read(&torn, b"k"), None);
    let wide = cache_write(b"", "жар");
    assert_eq!(cache_read(&wide, b"").as_deref(), Some("жар"));
}

#[test]
fn key_bytes() {
    let key = cache_key((12, -8), "src", &["-a".into(), "-b".into()], "sm_120a");
    assert_eq!(text(&key), "nvrtc=12.-8\x1farch=sm_120a\x1f-a\x1f-b\x1f\x1esrc");
    assert_eq!(text(&cache_key((0, 0), "", &[], "")), "nvrtc=0.0\x1farch=\x1f\x1e");
}

#[test]
fn different_input_different_key() {
    let k = |v, src: &str, o: &[&str], a: &str| {
        let o: Vec<String> = o.iter().map(|s| s.to_string()).collect();
        cache_key(v, src, &o, a)
    };
    let base = k((12, 8), "s", &["-x", "-y"], "sm_80");
    assert_ne!(base, k((12, 9), "s", &["-x", "-y"], "sm_80"));
    assert_ne!(base, k((128, 8), "s", &["-x", "-y"], "sm_80"));
    assert_ne!(base, k((12, 8), "t", &["-x", "-y"], "sm_80"));
    assert_ne!(base, k((12, 8), "s", &["-x-y"], "sm_80"));
    assert_ne!(base, k((12, 8), "s", &["-y", "-x"], "sm_80"));
    assert_ne!(base, k((12, 8), "s", &["-x", "-y"], "sm_90"));
}

#[test]
fn hash_values() {
    assert_eq!(fnv1a64(b""), 0xcbf29ce484222325);
    assert_eq!(fnv1a64(b"a"), 0xaf63dc4c8601ec8c);
    assert_eq!(fnv1a64(b"foobar"), 0x85944171f73967e8);
    assert_eq!(text(&cache_file_name("norm.cu", b"foobar")), "norm.cu-85944171f73967e8.ptx");
}

#[test]
fn cache_switch_and_directory() {
    assert!(cache_enabled(None));
    assert!(cache_enabled(Some("1")));
    assert!(cache_enabled(Some("")));
    assert!(cache_enabled(Some("00")));
    assert!(!cache_enabled(Some("0")));
    let s = |x: &str| Some(x.to_string());
    let d = cache_dir(s("/e"), s("/x"), s("/h")).unwrap();
    assert_eq!(d, CacheDir { base: "/e".to_string(), in_dot_cache: false, in_synaptix: false });
    let d = cache_dir(None, s("/x"), s("/h")).unwrap();
    assert_eq!(d, CacheDir { base: "/x".to_string(), in_dot_cache: false, in_synaptix: true });
    let d = cache_dir(None, None, s("/h")).unwrap();
    assert_eq!(d, CacheDir { base: "/h".to_string(), in_dot_cache: true, in_synaptix: true });
    assert_eq!(cache_dir(None, None, None), None);
}

#[test]
fn header_order() {
    let mut settings = CompileSettings { cuda_headers: None };
    assert_eq!(header_paths(&settings, (false, false, false)), Vec::<String>::new());
    set_cuda_include(&mut settings, Some("/mine".to_string()));
    let all = header_paths(&settings, (true, true, true));
    assert_eq!(all, vec!["/mine", "/opt/cuda/include", "/usr/local/cuda/include", "/usr/include/cuda"]);
    set_cuda_include(&mut settings, None);
    assert_eq!(header_paths(&settings, (false, false, true)), vec!["/usr/include/cuda"]);
}

#[test]
fn target_options() {
    assert_eq!(defines_for("sm_120a", "m.cu", Some(((12, 0), true))), Ok(ArchDefines { cc: 120, arch_a: 1 }));
    assert_eq!(defines_for("sm_90a", "m.cu", Some(((9, 0), true))), Ok(ArchDefines { cc: 90, arch_a: 1 }));
    assert_eq!(defines_for("sm_89a", "m.cu", Some(((8, 9), true))), Ok(ArchDefines { cc: 89, arch_a: 0 }));
    assert_eq!(defines_for("sm_120", "m.cu", Some(((12, 0), false))), Ok(ArchDefines { cc: 120, arch_a: 0 }));
    assert_eq!(
        defines_for("sm_x", "m.cu", None),
        Err(KernelError::CudaNames("nvrtc {}: цель '{}' не разобрана", "m.cu", "sm_x"))
    );
    let (cc, a) = define_options(ArchDefines { cc: 120, arch_a: 1 });
    assert_eq!((cc.as_str(), a.as_str()), ("-DSYN_CC=120", "-DSYN_ARCH_A=1"));
}

#[test]
fn compilation_of_a_source() {
    let (job, first) = compile_to_ptx("src", "t.cu", vec!["-O3".to_string()], "sm_80", &env(true, Some("/c")));
    assert_eq!(job.headers, vec!["/h", "/usr/local/cuda/include"]);
    assert_eq!(job.options, vec!["-O3", "-lineinfo"]);
    assert_eq!(first, CompileAction::ReadCache);
    let slot = job.slot.unwrap();
    assert_eq!(slot.dir.base, "/c");
    let key = cache_key((12, 8), "src", &["-O3".to_string(), "-lineinfo".to_string()], "sm_80");
    assert_eq!(slot.key, key);
    assert_eq!(slot.file, cache_file_name("t.cu", &key));
    let (job, first) = compile_to_ptx("src", "t.cu", vec![], "sm_80", &env(true, None));
    assert_eq!((job.slot, first), (None, CompileAction::Compile { store: false }));
    let (job, first) = compile_to_ptx("src", "t.cu", vec![], "sm_80", &env(false, Some("/c")));
    assert_eq!((job.slot, first), (None, CompileAction::Compile { store: false }));
}

#[test]
fn compilation_of_a_module() {
    let e = env(false, None);
    let extra = || vec!["-O3".to_string()];
    let want = vec!["-O3", "-DSYN_CC=90", "-DSYN_ARCH_A=1", "-lineinfo"];
    let (job, _) = compile_ptx_only("s", "t", extra(), "sm_90a", Some(((9, 0), true)), &e).unwrap();
    assert_eq!(job.options, want);
    let given = ModuleTarget::Given(Some(((9, 0), true)));
    let (job, _) = compile_module_with_opts("s", "t", extra(), "sm_90a", given, &e).unwrap();
    assert_eq!(job.options, want);
    let device = ModuleTarget::Device(ArchDefines { cc: 90, arch_a: 1 });
    let (job, _) = compile_module_with_opts("s", "t", extra(), "sm_90a", device, &e).unwrap();
    assert_eq!(job.options, want);
    let e1 = compile_module_with_opts("s", "t", extra(), "?", ModuleTarget::Given(None), &e);
    assert_eq!(e1, Err(KernelError::CudaNames("nvrtc {}: цель '{}' не разобрана", "t", "?")));
    assert!(compile_ptx_only("s", "t", extra(), "?", None, &e).is_err());
}

#[test]
fn compilation_course() {
    let (ok, no) = (CompileEvent::Succeeded, CompileEvent::Failed);
    assert_eq!(compile_start(false), CompileAction::Compile { store: false });
    let read = compile_start(true);
    assert_eq!(read, CompileAction::ReadCache);
    assert_eq!(compile_next(read, no), CompileAction::Compile { store: true });
    let load = compile_next(read, ok);
    assert_eq!(load, CompileAction::Load { cached: true, store: true });
    assert_eq!(compile_next(load, ok), CompileAction::Done);
    let again = compile_next(load, no);
    assert_eq!(again, CompileAction::Compile { store: true });
    let fresh = compile_next(again, ok);
    assert_eq!(fresh, CompileAction::Load { cached: false, store: true });
    assert_eq!(compile_next(fresh, no), CompileAction::Fail);
    assert_eq!(compile_next(again, no), CompileAction::Fail);
    for start in [true, false] {
        for bits in 0..16u32 {
            let mut a = compile_start(start);
            for i in 0..4 {
                a = compile_next(a, if bits >> i & 1 == 1 { ok } else { no });
            }
            assert!(a == CompileAction::Done || a == CompileAction::Fail);
            assert_eq!(compile_next(a, ok), a);
        }
    }
}

#[test]
fn numbers_as_text() {
    let mut out = vec![b'x'];
    push_decimal(&mut out, 0);
    push_decimal(&mut out, u64::MAX);
    push_signed(&mut out, i32::MIN);
    push_signed(&mut out, 7);
    push_hex(&mut out, 0x0a1f, 6);
    push_hex(&mut out, 0x1234, 2);
    assert_eq!(text(&out), "x018446744073709551615-21474836487000a1f34");
    assert_eq!(ascii_string(b"-lineinfo".to_vec()), "-lineinfo");
}
