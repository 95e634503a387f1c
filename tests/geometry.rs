use facility_pso::geometry::{decode_position, distance, encode_points, fitness, fitness_of, Xy};
use facility_pso::ConfigError;

fn xy(x: i64, y: i64) -> Xy {
    Xy { x, y }
}

#[test]
fn distance_of_a_point_to_itself_is_zero() {
    for p in [xy(0, 0), xy(-7, 12), xy(1073741824, -1073741824)] {
        assert_eq!(distance(&p, &p), 0);
    }
}

#[test]
fn distance_is_symmetric() {
    let pairs = [(xy(0, 0), xy(3, 4)), (xy(-5, 2), xy(7, -9)), (xy(100, 0), xy(0, 100))];
    for (a, b) in pairs {
        assert_eq!(distance(&a, &b), distance(&b, &a));
    }
}

#[test]
fn distance_exact_values() {
    assert_eq!(distance(&xy(0, 0), &xy(3, 4)), 5);
    assert_eq!(distance(&xy(0, 0), &xy(3000, 4000)), 5000);
    // sqrt(2) rounds down
    assert_eq!(distance(&xy(0, 0), &xy(1, 1)), 1);
    // sqrt(2) * 10000 = 14142.13...
    assert_eq!(distance(&xy(0, 0), &xy(10000, 10000)), 14142);
    let far = 1073741824;
    // sqrt(2) * 2^31 = 3037000499.97...
    assert_eq!(distance(&xy(-far, -far), &xy(far, far)), 3037000499);
}

#[test]
fn decode_and_encode_round_trip() {
    let flat = vec![1, 2, 3, 4, 5, 6];
    let points = decode_position(&flat);
    assert_eq!(points, vec![xy(1, 2), xy(3, 4), xy(5, 6)]);
    assert_eq!(encode_points(&points), flat);
    assert_eq!(decode_position(&vec![]), vec![]);
}

#[test]
fn fitness_single_facility() {
    // nearest residential 5 away, the store 0 away
    let stores = vec![xy(0, 0)];
    let residential = vec![xy(3, 4), xy(30, 40)];
    assert_eq!(fitness_of(&vec![0, 0], &stores, &residential), 5);
    assert_eq!(fitness(&vec![0, 0], &stores, &residential), Ok(5));
}

#[test]
fn fitness_several_facilities() {
    // facilities at (0,0) and (100,0)
    let position = vec![0, 0, 100, 0];
    // stores: nearest distances 10 and 20, so the worst store is 20 away
    let stores = vec![xy(0, 10), xy(120, 0)];
    // residential: nearest distances 50 and 30, so the closest is 30 away
    let residential = vec![xy(50, 0), xy(100, 30)];
    assert_eq!(fitness_of(&position, &stores, &residential), 30 - 20);
}

#[test]
fn worst_store_is_zero_when_facilities_stand_on_stores() {
    let stores = vec![xy(10, 10), xy(-40, 25)];
    let residential = vec![xy(100, 100)];
    let position = encode_points(&stores);
    let closest = std::cmp::min(
        distance(&xy(100, 100), &stores[0]),
        distance(&xy(100, 100), &stores[1]),
    );
    assert_eq!(fitness_of(&position, &stores, &residential), closest);
}

#[test]
fn fitness_errors() {
    let s = vec![xy(0, 0)];
    let r = vec![xy(1, 1)];
    assert_eq!(fitness(&vec![], &s, &r), Err(ConfigError::NoFacilities));
    assert_eq!(fitness(&vec![1, 2, 3], &s, &r), Err(ConfigError::DimensionMismatch));
    assert_eq!(fitness(&vec![1, 2], &vec![], &r), Err(ConfigError::NoStores));
    assert_eq!(fitness(&vec![1, 2], &s, &vec![]), Err(ConfigError::NoResidential));
    assert_eq!(
        fitness(&vec![1, 1073741825], &s, &r),
        Err(ConfigError::CoordinateOutOfRange)
    );
    assert_eq!(
        fitness(&vec![1, 2], &vec![xy(-1073741825, 0)], &r),
        Err(ConfigError::CoordinateOutOfRange)
    );
}
