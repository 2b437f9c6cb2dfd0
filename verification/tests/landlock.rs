use brink::error::SandboxError;
use brink::landlock::{apply_ruleset, probe_abi_version, FsRights};

fn letters(r: &FsRights) -> String {
    [
        (r.read_file, 'r'),
        (r.write_file, 'w'),
        (r.read_dir, 'l'),
        (r.make_reg, 'm'),
        (r.remove_file, 'd'),
        (r.truncate, 't'),
        (r.make_dir, 'D'),
        (r.make_sym, 'S'),
    ]
    .iter()
    .filter(|(set, _)| *set)
    .map(|(_, c)| *c)
    .collect()
}

#[test]
fn rules_are_laid_down_in_order() {
    let extra = vec![(b"/opt/py".to_vec(), b"/usr/py".to_vec())];
    let plan = apply_ruleset(4, &b"/workspace".to_vec(), &extra).unwrap();
    assert_eq!(letters(&plan.handled), "rwlmdtDS");
    let got: Vec<(String, String)> = plan
        .rules
        .iter()
        .map(|r| (String::from_utf8(r.path.clone()).unwrap(), letters(&r.rights)))
        .collect();
    let want = [
        ("/workspace", "rwlmdt"),
        ("/tmp", "rwlmdt"),
        ("/dev/null", "rw"),
        ("/dev/urandom", "r"),
        ("/dev/pts", "rw"),
        ("/proc/self", "rl"),
        ("/usr/py", "rl"),
    ];
    assert_eq!(got.len(), want.len());
    for (g, w) in got.iter().zip(want.iter()) {
        assert_eq!((g.0.as_str(), g.1.as_str()), *w);
    }
}

#[test]
fn old_kernels_are_refused() {
    let ws = b"/workspace".to_vec();
    assert!(matches!(
        apply_ruleset(-1, &ws, &vec![]),
        Err(SandboxError::LandlockUnsupported(0))
    ));
    assert!(matches!(apply_ruleset(0, &ws, &vec![]), Err(SandboxError::LandlockUnsupported(0))));
    assert!(matches!(apply_ruleset(1, &ws, &vec![]), Err(SandboxError::LandlockUnsupported(1))));
    // Version 2 gets the same rights, though it cannot enforce all of them.
    let plan = apply_ruleset(2, &ws, &vec![]).unwrap();
    assert_eq!(letters(&plan.handled), "rwlmdtDS");
    assert!(matches!(probe_abi_version(-95), Ok(0)));
    assert!(matches!(probe_abi_version(5), Ok(5)));
}
