use balatro_seed_engine::dialogue::{Reply, Request, Stop};
use balatro_seed_engine::filter::{Clause, Filter};
use balatro_seed_engine::scan::replies_fit;
use balatro_seed_engine::search::{matches_fit, pack_records, Match, RECORD_LEN};
use balatro_seed_engine::state::{Deck, Stake};
use balatro_seed_engine::{
    scan_chunk, scan_chunk_parallel, v3_diagnostic_cpu, v3_diagnostic_shader_source,
};

fn found(rank: u64, score: u8, seed: &str) -> Match {
    Match { rank, score, seed: seed.to_string() }
}

fn two_matches() -> Vec<Match> {
    vec![found(0x0102030405060708, 9, "ABC"), found(u64::MAX, 255, "12345678")]
}

fn two_records() -> Vec<u8> {
    vec![
        8, 7, 6, 5, 4, 3, 2, 1, 9, b'A', b'B', b'C', b' ', b' ', b' ', b' ', b' ', //
        255, 255, 255, 255, 255, 255, 255, 255, 255, b'1', b'2', b'3', b'4', b'5', b'6', b'7',
        b'8',
    ]
}

fn one_clause() -> Result<Filter, String> {
    Ok(Filter { clauses: vec![Clause::AnteBossIs { ante: 1, boss: "The Hook".to_string() }] })
}

#[test]
fn records_have_seventeen_bytes() {
    let bytes = pack_records(&two_matches());
    assert_eq!(bytes.len(), 2 * RECORD_LEN);
    assert_eq!(bytes, two_records());
    assert_eq!(pack_records(&vec![]), Vec::<u8>::new());
}

#[test]
fn an_empty_seed_is_all_blanks() {
    let bytes = pack_records(&vec![found(256, 0, "")]);
    assert_eq!(
        bytes,
        vec![0, 1, 0, 0, 0, 0, 0, 0, 0, 32, 32, 32, 32, 32, 32, 32, 32]
    );
}

#[test]
fn records_read_back_in_order() {
    let matches = vec![found(3, 1, "A"), found(70000, 2, "B2"), found(1 << 40, 3, "C33")];
    let bytes = pack_records(&matches);
    for (i, m) in matches.iter().enumerate() {
        let record = &bytes[17 * i..17 * (i + 1)];
        let mut rank = [0u8; 8];
        rank.copy_from_slice(&record[..8]);
        assert_eq!(u64::from_le_bytes(rank), m.rank);
        assert_eq!(record[8], m.score);
        let seed = String::from_utf8(record[9..].to_vec()).unwrap();
        assert_eq!(seed.trim_end_matches(' '), m.seed);
    }
}

#[test]
fn seeds_are_measured_in_bytes() {
    assert!(matches_fit(&vec![found(0, 0, "12345678")]));
    assert!(!matches_fit(&vec![found(0, 0, "123456789")]));
    assert!(matches_fit(&vec![found(0, 0, "éééé")]));
    assert!(!matches_fit(&vec![found(0, 0, "A"), found(0, 0, "ééééé")]));
    assert!(replies_fit(&vec![]));
    assert!(replies_fit(&vec![Reply::Ready]));
    assert!(!replies_fit(&vec![Reply::Matches(vec![found(0, 0, "123456789")])]));
}

#[test]
fn a_scan_asks_for_its_job() {
    match scan_chunk(one_clause(), 5, 100, 8, 4, 200, true, 3, &vec![]) {
        Err(Stop::Need(Request::Scan { job })) => {
            assert_eq!(job.filter.clauses.len(), 1);
            assert_eq!(job.config.deck, Deck::Black);
            assert_eq!(job.config.stake, Stake::Gold);
            assert_eq!(job.config.seed, [0; 8]);
            assert_eq!(job.config.seed_len, 8);
            assert!(job.partial);
            assert_eq!(job.min_score, 3);
            assert_eq!(job.start_rank, 5);
            assert_eq!(job.count, 100);
        }
        other => panic!("{:?}", other),
    }
}

#[test]
fn an_unreadable_filter_is_searched_without_clauses() {
    match scan_chunk(Err("no".to_string()), 0, 1, 1, 0, 0, false, 0, &vec![]) {
        Err(Stop::Need(Request::Scan { job })) => assert_eq!(job.filter.clauses.len(), 0),
        other => panic!("{:?}", other),
    }
}

#[test]
fn parallel_and_serial_scans_agree() {
    let replies = vec![Reply::Matches(two_matches())];
    let serial = scan_chunk(one_clause(), 0, 9, 8, 0, 0, false, 0, &replies).unwrap();
    let parallel = scan_chunk_parallel(one_clause(), 0, 9, 8, 0, 0, false, 0, &replies).unwrap();
    assert_eq!(serial, two_records());
    assert_eq!(parallel, serial);
    assert!(matches!(
        scan_chunk_parallel(one_clause(), 0, 9, 8, 0, 0, false, 0, &vec![]),
        Err(Stop::Need(Request::ScanParallel { .. }))
    ));
}

#[test]
fn a_reply_of_another_kind_is_a_mismatch() {
    assert!(matches!(
        scan_chunk(one_clause(), 0, 9, 8, 0, 0, false, 0, &vec![Reply::Ready]),
        Err(Stop::Mismatch(0))
    ));
}

#[test]
fn the_diagnostic_goes_through() {
    assert!(matches!(
        v3_diagnostic_cpu(1, 2, 3, &vec![]),
        Err(Stop::Need(Request::RunDiagnostic { seed_base: 1, iter_count: 2, seed_count: 3 }))
    ));
    assert_eq!(
        v3_diagnostic_cpu(1, 2, 3, &vec![Reply::Words(vec![7, 8, 9])]).unwrap(),
        vec![7, 8, 9]
    );
    assert!(matches!(
        v3_diagnostic_shader_source(&vec![]),
        Err(Stop::Need(Request::ShaderSource))
    ));
    assert_eq!(
        v3_diagnostic_shader_source(&vec![Reply::Source("@compute".to_string())]).unwrap(),
        "@compute"
    );
}

#[test]
fn further_replies_do_not_change_a_search() {
    let replies = vec![Reply::Matches(two_matches()), Reply::Ready, Reply::Matches(vec![])];
    let bytes = scan_chunk(one_clause(), 0, 1, 8, 0, 0, false, 0, &replies).unwrap();
    assert_eq!(bytes, two_records());
    let bytes = scan_chunk_parallel(one_clause(), 0, 1, 8, 0, 0, false, 0, &replies).unwrap();
    assert_eq!(bytes, two_records());
}
