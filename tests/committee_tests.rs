use dusk_consensus::committee::{create_committee, draw_one, total_stake, Provisioner};

fn provisioners(stakes: &[u64]) -> Vec<Provisioner> {
    stakes
        .iter()
        .enumerate()
        .map(|(i, s)| Provisioner { key: [i as u8 + 1; 96], stake: *s })
        .collect()
}

#[test]
fn draws_follow_cumulated_stakes() {
    let ps = provisioners(&[10, 0, 30, 60]);
    assert_eq!(total_stake(&ps), 100);
    assert_eq!(draw_one(&ps, 0), 0);
    assert_eq!(draw_one(&ps, 9), 0);
    assert_eq!(draw_one(&ps, 10), 2);
    assert_eq!(draw_one(&ps, 39), 2);
    assert_eq!(draw_one(&ps, 40), 3);
    assert_eq!(draw_one(&ps, 99), 3);
}

#[test]
fn every_provisioner_is_drawn_as_often_as_its_stake() {
    let stakes = [1_000u64, 250, 3_750, 5_000];
    let ps = provisioners(&stakes);
    let total = total_stake(&ps);
    let mut counts = [0u64; 4];
    for s in 0..total {
        counts[draw_one(&ps, s)] += 1;
    }
    assert_eq!(counts, stakes);
}

#[test]
fn committee_is_deterministic() {
    let ps = provisioners(&[1, 1, 1, 1]);
    let scores: Vec<u128> = vec![0, 5, 6, 3, 1_000_003];
    let a = create_committee(&ps, &scores);
    let b = create_committee(&ps, &scores);
    assert_eq!(a, b);
    assert_eq!(a, vec![[1u8; 96], [2u8; 96], [3u8; 96], [4u8; 96], [4u8; 96]]);
    assert!(create_committee(&ps, &vec![]).is_empty());
}

#[test]
fn a_provisioner_may_hold_several_seats() {
    let ps = provisioners(&[100, 1]);
    let scores: Vec<u128> = (0..64).map(|k| k * 7).collect();
    let committee = create_committee(&ps, &scores);
    assert_eq!(committee.len(), 64);
    assert!(committee.iter().filter(|k| **k == [1u8; 96]).count() > 60);
}
