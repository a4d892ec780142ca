use ennui::location::direction::MapDir;
use ennui::location::Coord;

#[test]
fn mod_coord_test_north() {
    assert_eq!(Coord(0, 0).north(), Coord(0, 1));
}

#[test]
fn mod_coord_test_south() {
    assert_eq!(Coord(0, 0).south(), Coord(0, -1));
}

#[test]
fn mod_coord_test_east() {
    assert_eq!(Coord(0, 0).east(), Coord(1, 0));
}

#[test]
fn mod_coord_test_west() {
    assert_eq!(Coord(0, 0).west(), Coord(-1, 0));
}

#[test]
fn map_coord_test_north() {
    assert_eq!(Coord(0, 0).north(), Coord(0, 1));
}

#[test]
fn map_coord_test_south() {
    assert_eq!(Coord(0, 0).south(), Coord(0, -1));
}

#[test]
fn map_coord_test_east() {
    assert_eq!(Coord(0, 0).east(), Coord(1, 0));
}

#[test]
fn map_coord_test_west() {
    assert_eq!(Coord(0, 0).west(), Coord(-1, 0));
}

#[test]
fn map_test() {
    assert_eq!(Coord(0, 0).north(), Coord(0, 1));
}

#[test]
fn step_and_step_back_returns_home() {
    for d in MapDir::all() {
        let there = match Coord(3, -4).add(d) {
            Some(c) => c,
            None => continue,
        };
        assert_eq!(there.add(d.opposite()), Some(Coord(3, -4)));
    }
}

#[test]
fn only_compass_directions_lead_anywhere() {
    assert_eq!(Coord(0, 0).add(MapDir::NoneFound), None);
    assert_eq!(Coord(0, 0).add(MapDir::Up), None);
    assert_eq!(Coord(0, 0).add(MapDir::NorthEast), None);
    assert_eq!(Coord(5, 5).add(MapDir::West), Some(Coord(4, 5)));
}

#[test]
fn mutating_steps_match_pure_steps() {
    let mut c = Coord(2, 2);
    c.north_mut();
    assert_eq!(c, Coord(2, 3));
    c.west_mut();
    c.south_mut();
    c.east_mut();
    assert_eq!(c, Coord(2, 2));
}

#[test]
fn direction_words_and_opposites() {
    assert_eq!(MapDir::from_word("n"), MapDir::North);
    assert_eq!(MapDir::from_word("northe"), MapDir::NorthEast);
    assert_eq!(MapDir::from_word("up"), MapDir::NoneFound);
    assert_eq!(MapDir::from_word("xyzzy"), MapDir::NoneFound);
    assert_eq!(MapDir::North.opposite(), MapDir::South);
    assert_eq!(MapDir::NorthEast.opposite(), MapDir::NoneFound);
    assert_eq!(MapDir::Up.opposite().opposite(), MapDir::Up);
    assert_eq!(MapDir::North.to_string(), "north");
    assert_eq!(MapDir::NorthEast.to_string_short(), "ne");
    assert_eq!(MapDir::all().len(), 7);
}
