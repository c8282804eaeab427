use rupervise::registry::{ProbeSet, ServiceRegistry};
use rupervise::status::{
    DownProbe, OkProbe, StatusProbe, SvWants, SvstatError, SvstatType, evaluate_status, get_pid,
};
use rupervise::tai::Tai;

fn record(start: u64, pid: [u8; 4], paused: u8, want: u8) -> Vec<u8> {
    let mut rec = vec![0u8; 18];
    for i in 0..8 {
        rec[i] = (start >> (8 * (7 - i))) as u8;
    }
    rec[12..16].copy_from_slice(&pid);
    rec[16] = paused;
    rec[17] = want;
    rec
}

fn good_probes(rec: Vec<u8>) -> ProbeSet {
    ProbeSet {
        dir_ok: true,
        down: DownProbe::NotFound,
        ok_probe: OkProbe::Opened,
        status: StatusProbe::Data(rec),
    }
}

#[test]
fn zero_pid_reads_as_none() {
    let rec = record(50, [0, 0, 0, 0], 0, b'u');
    let st = evaluate_status(true, DownProbe::NotFound, OkProbe::Opened, &StatusProbe::Data(rec), Tai(60));
    assert_eq!(
        st,
        SvstatType::SvOk {
            pid: None,
            normally_up: true,
            is_paused: false,
            duration: 10,
            wants: Some(SvWants::WantsUp),
        }
    );
}

#[test]
fn little_endian_pid_one() {
    let rec = record(50, [0x01, 0, 0, 0], 0, b'x');
    let st = evaluate_status(true, DownProbe::NotFound, OkProbe::Opened, &StatusProbe::Data(rec), Tai(60));
    match st {
        SvstatType::SvOk { pid, wants, .. } => {
            assert_eq!(Some(1), pid);
            assert_eq!(None, wants);
        }
        other => panic!("expected a decoded record, got {:?}", other),
    }
}

#[test]
fn short_record_is_bad_format() {
    let rec = vec![0u8; 17];
    let st = evaluate_status(true, DownProbe::NotFound, OkProbe::Opened, &StatusProbe::Data(rec), Tai(60));
    assert_eq!(st, SvstatType::SvError(SvstatError::StatusBadFormat));
    let st = evaluate_status(
        true,
        DownProbe::NotFound,
        OkProbe::Opened,
        &StatusProbe::Data(vec![0u8; 19]),
        Tai(60),
    );
    assert_eq!(st, SvstatType::SvError(SvstatError::StatusBadFormat));
}

#[test]
fn future_start_clamps_age_to_zero() {
    let rec = record(100, [0x01, 0, 0, 0], 0, b'u');
    let st = evaluate_status(true, DownProbe::NotFound, OkProbe::Opened, &StatusProbe::Data(rec), Tai(60));
    match st {
        SvstatType::SvOk { duration, .. } => assert_eq!(0, duration),
        other => panic!("expected a decoded record, got {:?}", other),
    }
}

#[test]
fn paused_and_down_sentinel_decode() {
    let rec = record(50, [0x01, 0, 0, 0], 1, b'd');
    let st = evaluate_status(true, DownProbe::Present, OkProbe::Opened, &StatusProbe::Data(rec), Tai(60));
    assert_eq!(
        st,
        SvstatType::SvOk {
            pid: Some(1),
            normally_up: false,
            is_paused: true,
            duration: 10,
            wants: Some(SvWants::WantsDown),
        }
    );
}

#[test]
fn each_probe_failure_names_its_fault() {
    let now = Tai(60);
    let rec = || StatusProbe::Data(record(50, [0, 0, 0, 0], 0, 0));
    let st = evaluate_status(false, DownProbe::NotFound, OkProbe::Opened, &rec(), now);
    assert_eq!(st, SvstatType::SvError(SvstatError::UnableToChDir));
    let st = evaluate_status(true, DownProbe::OtherError, OkProbe::Opened, &rec(), now);
    assert_eq!(st, SvstatType::SvError(SvstatError::UnableToStatDown));
    let st = evaluate_status(true, DownProbe::NotFound, OkProbe::NotRunning, &rec(), now);
    assert_eq!(st, SvstatType::SvError(SvstatError::SuperviseNotRunning));
    let st = evaluate_status(true, DownProbe::NotFound, OkProbe::OtherError, &rec(), now);
    assert_eq!(st, SvstatType::SvError(SvstatError::UnableToOpenSuperviseOk));
    let st = evaluate_status(true, DownProbe::NotFound, OkProbe::Opened, &StatusProbe::OpenFailed, now);
    assert_eq!(st, SvstatType::SvError(SvstatError::UnableToOpenSuperviseStatus));
    let st = evaluate_status(true, DownProbe::NotFound, OkProbe::Opened, &StatusProbe::ReadFailed, now);
    assert_eq!(st, SvstatType::SvError(SvstatError::StatusOtherError));
}

#[test]
fn get_pid_is_little_endian() {
    assert_eq!(1, get_pid(&[0x01, 0, 0, 0]));
    assert_eq!(1234, get_pid(&[0xD2, 0x04, 0, 0]));
    assert_eq!(0x04030201, get_pid(&[0x01, 0x02, 0x03, 0x04]));
}

#[test]
fn refresh_all_decodes_each_entry_in_order() {
    let names = vec!["svc0".to_string(), "svc1".to_string(), "svc2".to_string()];
    let mut reg = ServiceRegistry::new(names);
    assert_eq!(3, reg.len());
    let rec = record(50, [0xD2, 0x04, 0, 0], 0, b'u');
    let probes = vec![
        good_probes(rec),
        ProbeSet {
            dir_ok: false,
            down: DownProbe::NotFound,
            ok_probe: OkProbe::Opened,
            status: StatusProbe::OpenFailed,
        },
        good_probes(record(55, [0, 0, 0, 0], 0, 0)),
    ];
    reg.refresh_all(&probes, Tai(60));
    assert_eq!(
        reg.get(0).status,
        Some(SvstatType::SvOk {
            pid: Some(1234),
            normally_up: true,
            is_paused: false,
            duration: 10,
            wants: Some(SvWants::WantsUp),
        })
    );
    assert_eq!(reg.get(1).status, Some(SvstatType::SvError(SvstatError::UnableToChDir)));
    assert_eq!(reg.get(0).name, "svc0");
    assert_eq!(reg.get(1).name, "svc1");
    match reg.get(2).status {
        Some(SvstatType::SvOk { pid, duration, .. }) => {
            assert_eq!(None, pid);
            assert_eq!(5, duration);
        }
        ref other => panic!("expected a decoded record, got {:?}", other),
    }
}
