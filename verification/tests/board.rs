use shadow_hunters::location::{LocationId, Locations};

#[test]
fn location_location_identifiers() {
    let locations = Locations::unshuffled();
    for (i, l) in locations.iter().into_iter().enumerate() {
        assert_eq!(l.id().0, i);
    }
}

#[test]
fn locations_location_identifiers() {
    let locations = Locations::unshuffled();
    for (i, l) in locations.iter().into_iter().enumerate() {
        assert_eq!(l.id().0, i);
    }
}

#[test]
fn mod_location_identifiers() {
    let locations = Locations::unshuffled();
    for (i, l) in locations.iter().into_iter().enumerate() {
        assert_eq!(l.id().0, i);
    }
}

fn group_ids(locations: &Locations, id: usize) -> Vec<usize> {
    locations
        .in_group_iter(LocationId(id))
        .into_iter()
        .map(|l| l.id().0)
        .collect()
}

fn out_group_ids(locations: &Locations, id: usize) -> Vec<usize> {
    locations
        .out_group_iter(LocationId(id))
        .into_iter()
        .map(|l| l.id().0)
        .collect()
}

#[test]
fn locations_in_group_iter() {
    let locations = Locations::unshuffled();
    assert_eq!(group_ids(&locations, 0), vec![0, 1]);
    assert_eq!(group_ids(&locations, 1), vec![0, 1]);
    assert_eq!(group_ids(&locations, 3), vec![2, 3]);
}

#[test]
fn mod_in_group_iter() {
    let locations = Locations::unshuffled();
    assert_eq!(group_ids(&locations, 0), vec![0, 1]);
    assert_eq!(group_ids(&locations, 1), vec![0, 1]);
    assert_eq!(group_ids(&locations, 3), vec![2, 3]);
}

#[test]
fn location_in_group_iter() {
    let locations = Locations::unshuffled();
    assert_eq!(group_ids(&locations, 0), vec![0, 1]);
    assert_eq!(group_ids(&locations, 1), vec![0, 1]);
    assert_eq!(group_ids(&locations, 3), vec![2, 3]);
}

#[test]
fn locations_out_group_iter() {
    let locations = Locations::unshuffled();
    assert_eq!(out_group_ids(&locations, 0), vec![2, 3, 4, 5]);
    assert_eq!(out_group_ids(&locations, 1), vec![2, 3, 4, 5]);
    assert_eq!(out_group_ids(&locations, 3), vec![0, 1, 4, 5]);
}

#[test]
fn mod_out_group_iter() {
    let locations = Locations::unshuffled();
    assert_eq!(out_group_ids(&locations, 0), vec![2, 3, 4, 5]);
    assert_eq!(out_group_ids(&locations, 1), vec![2, 3, 4, 5]);
    assert_eq!(out_group_ids(&locations, 3), vec![0, 1, 4, 5]);
}

#[test]
fn location_out_group_iter() {
    let locations = Locations::unshuffled();
    assert_eq!(out_group_ids(&locations, 0), vec![2, 3, 4, 5]);
    assert_eq!(out_group_ids(&locations, 1), vec![2, 3, 4, 5]);
    assert_eq!(out_group_ids(&locations, 3), vec![0, 1, 4, 5]);
}

fn adjacent_ids(locations: &Locations, id: usize) -> Vec<usize> {
    locations
        .adjacent(LocationId(id))
        .into_iter()
        .map(|l| l.id().0)
        .collect()
}

#[test]
fn locations_adjacent() {
    let locations = Locations::unshuffled();
    assert_eq!(adjacent_ids(&locations, 0), vec![5, 1]);
    assert_eq!(adjacent_ids(&locations, 1), vec![0, 2]);
    assert_eq!(adjacent_ids(&locations, 4), vec![3, 5]);
    assert_eq!(adjacent_ids(&locations, 5), vec![4, 0]);
}

#[test]
fn mod_adjacent() {
    let locations = Locations::unshuffled();
    assert_eq!(adjacent_ids(&locations, 0), vec![5, 1]);
    assert_eq!(adjacent_ids(&locations, 1), vec![0, 2]);
    assert_eq!(adjacent_ids(&locations, 4), vec![3, 5]);
    assert_eq!(adjacent_ids(&locations, 5), vec![4, 0]);
}

#[test]
fn location_adjacent() {
    let locations = Locations::unshuffled();
    assert_eq!(adjacent_ids(&locations, 0), vec![5, 1]);
    assert_eq!(adjacent_ids(&locations, 1), vec![0, 2]);
    assert_eq!(adjacent_ids(&locations, 4), vec![3, 5]);
    assert_eq!(adjacent_ids(&locations, 5), vec![4, 0]);
}

#[test]
fn from_dice_number_covers_every_sum_once() {
    let locations = Locations::unshuffled();
    let expected = [
        (2, 0),
        (3, 0),
        (4, 1),
        (5, 1),
        (6, 2),
        (8, 3),
        (9, 4),
        (10, 5),
    ];
    for (sum, id) in expected {
        let l = locations.from_dice_number(sum);
        assert_eq!(l.id().0, id);
        assert!(l.dice_numbers().contains(&sum));
    }
}

#[test]
fn from_dice_number_unique_owner() {
    let locations = Locations::unshuffled();
    for sum in [2usize, 3, 4, 5, 6, 8, 9, 10] {
        let holders: Vec<usize> = locations
            .iter()
            .into_iter()
            .filter(|l| l.dice_numbers().contains(&sum))
            .map(|l| l.id().0)
            .collect();
        assert_eq!(holders.len(), 1);
        assert_eq!(holders[0], locations.from_dice_number(sum).id().0);
    }
    let seven_holders: Vec<usize> = locations
        .iter()
        .into_iter()
        .filter(|l| l.dice_numbers().contains(&7))
        .map(|l| l.id().0)
        .collect();
    assert!(seven_holders.is_empty());
}

#[test]
fn generate_layout_is_permutation() {
    for _ in 0..20 {
        let locations = Locations::generate();
        let mut seen = [false; 6];
        for id in &locations.layout {
            assert!(id.0 < 6);
            assert!(!seen[id.0]);
            seen[id.0] = true;
        }
        assert!(seen.iter().all(|&s| s));
    }
}

#[test]
fn group_partition_on_shuffled_board() {
    let locations = Locations::generate();
    for id in 0..6 {
        let ins = group_ids(&locations, id);
        let outs = out_group_ids(&locations, id);
        assert_eq!(ins.len(), 2);
        assert_eq!(outs.len(), 4);
        assert!(ins.contains(&id));
        for i in &ins {
            assert!(!outs.contains(i));
        }
        let mut all: Vec<usize> = ins.iter().chain(outs.iter()).copied().collect();
        all.sort();
        assert_eq!(all, vec![0, 1, 2, 3, 4, 5]);
    }
}
