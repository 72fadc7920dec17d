use maze_pursuit::enemy::{
    direct_heading, move_enemy, select_goal, steer, Direction, Enemy, PathResult, ENEMY_SPEED,
    PATH_PERIOD_MS,
};
use maze_pursuit::geometry::Point3;

fn p(x: i32, y: i32, z: i32) -> Point3 {
    Point3 { x, y, z }
}

fn d(x: i64, y: i64, z: i64) -> Direction {
    Direction { x, y, z }
}

#[test]
fn goal_is_the_second_waypoint_of_a_longer_path() {
    assert_eq!(select_goal(&vec![p(0, 0, 0), p(1, 2, 3)]), p(1, 2, 3));
    assert_eq!(select_goal(&vec![p(0, 0, 0), p(1, 2, 3), p(9, 9, 9)]), p(1, 2, 3));
    assert_eq!(select_goal(&vec![p(5, 5, 5), p(-4, 0, 7), p(9, 9, 9), p(8, 8, 8)]), p(-4, 0, 7));
}

#[test]
fn goal_is_the_only_waypoint_of_a_path_of_one() {
    assert_eq!(select_goal(&vec![p(4, 5, 6)]), p(4, 5, 6));
}

#[test]
fn direct_heading_is_the_difference_in_three_axes() {
    assert_eq!(direct_heading(p(1, 2, 3), p(11, -2, 3)), d(10, -4, 0));
    assert_eq!(direct_heading(p(0, 0, 0), p(0, 0, 0)), d(0, 0, 0));
    assert_eq!(
        direct_heading(p(i32::MIN, i32::MAX, 0), p(i32::MAX, i32::MIN, 0)),
        d(4294967295, -4294967295, 0)
    );
}

#[test]
fn without_a_route_the_heading_is_direct() {
    let agent = p(100, 50, -30);
    let target = p(-20, 80, 70);
    assert_eq!(steer(agent, target, &PathResult::NoRoute), d(-120, 30, 100));
    assert_eq!(steer(agent, target, &PathResult::Unavailable), d(-120, 30, 100));
}

#[test]
fn with_a_route_the_heading_is_horizontal_toward_the_goal() {
    let agent = p(100, 50, -30);
    let target = p(-20, 80, 70);
    let route = PathResult::Found(vec![p(100, 50, -30), p(60, 75, -30), p(-20, 80, 70)]);
    assert_eq!(steer(agent, target, &route), d(-40, 0, 0));
    let route = PathResult::Found(vec![p(100, 50, -30), p(103, 0, -34)]);
    let heading = steer(agent, target, &route);
    assert_eq!(heading, d(3, 0, -4));
    assert_eq!(heading.y, 0);
    // Normalised, the heading has length one in the horizontal plane.
    let length = ((heading.x * heading.x + heading.z * heading.z) as f64).sqrt();
    let (nx, nz) = (heading.x as f64 / length, heading.z as f64 / length);
    assert_eq!((nx, nz), (0.6, -0.8));
}

#[test]
fn a_route_of_one_waypoint_steers_toward_it() {
    let route = PathResult::Found(vec![p(7, 9, -2)]);
    assert_eq!(steer(p(1, 1, 1), p(50, 50, 50), &route), d(6, 0, -3));
}

#[test]
fn a_goal_straight_above_falls_back_to_direct() {
    let agent = p(10, 0, 20);
    let target = p(13, 1, 24);
    let route = PathResult::Found(vec![p(10, 0, 20), p(10, 5, 20), p(13, 1, 24)]);
    assert_eq!(steer(agent, target, &route), d(3, 1, 4));
    let route = PathResult::Found(vec![p(10, 0, 20)]);
    assert_eq!(steer(agent, target, &route), d(3, 1, 4));
}

#[test]
fn new_enemy_has_no_heading() {
    let enemy = Enemy::new(1234);
    assert_eq!(enemy.current_path, d(0, 0, 0));
    assert_eq!(enemy.last_path_set, 1234);
    assert_eq!(enemy.facing(), None);
}

#[test]
fn path_period_is_four_tenths_of_a_second() {
    assert_eq!(PATH_PERIOD_MS, 400);
}

#[test]
fn heading_is_due_only_after_more_than_a_period() {
    let enemy = Enemy::new(1000);
    assert!(!enemy.path_due(0));
    assert!(!enemy.path_due(1000));
    assert!(!enemy.path_due(1399));
    assert!(!enemy.path_due(1400));
    assert!(enemy.path_due(1401));
    assert!(enemy.path_due(u64::MAX));
    let late = Enemy::new(u64::MAX);
    assert!(!late.path_due(u64::MAX));
    assert!(!late.path_due(0));
}

#[test]
fn tick_before_the_period_changes_nothing() {
    let mut enemy = Enemy { current_path: d(1, 0, 1), last_path_set: 1000 };
    let route = PathResult::Found(vec![p(0, 0, 0), p(5, 0, 0)]);
    assert!(!move_enemy(&mut enemy, 1400, p(0, 0, 0), p(9, 9, 9), &route));
    assert_eq!(enemy, Enemy { current_path: d(1, 0, 1), last_path_set: 1000 });
}

#[test]
fn tick_after_the_period_recomputes_and_stamps() {
    let mut enemy = Enemy { current_path: d(1, 0, 1), last_path_set: 1000 };
    let route = PathResult::Found(vec![p(0, 0, 0), p(5, 3, 0)]);
    assert!(move_enemy(&mut enemy, 1401, p(0, 0, 0), p(9, 9, 9), &route));
    assert_eq!(enemy, Enemy { current_path: d(5, 0, 0), last_path_set: 1401 });
}

#[test]
fn heading_holds_between_ticks_within_a_period() {
    let mut enemy = Enemy::new(0);
    let found = PathResult::Found(vec![p(0, 0, 0), p(5, 3, 0)]);
    assert!(move_enemy(&mut enemy, 500, p(0, 0, 0), p(9, 9, 9), &found));
    let held = enemy;
    for now in [500u64, 501, 700, 899, 900] {
        assert!(!move_enemy(&mut enemy, now, p(1, 1, 1), p(-3, 0, 4), &PathResult::NoRoute));
        assert_eq!(enemy, held);
    }
    assert!(move_enemy(&mut enemy, 901, p(1, 1, 1), p(-3, 0, 4), &PathResult::NoRoute));
    assert_eq!(enemy, Enemy { current_path: d(-4, -1, 3), last_path_set: 901 });
}

#[test]
fn heading_is_recomputed_once_per_period() {
    let mut enemy = Enemy::new(0);
    let mut recomputed = Vec::new();
    // A tick every 16 ms for four seconds.
    let mut now = 0;
    while now <= 4000 {
        if move_enemy(&mut enemy, now, p(0, 0, 0), p(1, 0, 0), &PathResult::Unavailable) {
            recomputed.push(now);
        }
        now += 16;
    }
    assert_eq!(recomputed, vec![416, 832, 1248, 1664, 2080, 2496, 2912, 3328, 3744]);
}

#[test]
fn agent_faces_its_heading_unless_it_has_no_horizontal_part() {
    let turning = Enemy { current_path: d(3, 0, -4), last_path_set: 0 };
    assert_eq!(turning.facing(), Some(d(3, 0, -4)));
    let straight = Enemy { current_path: d(0, 0, 5), last_path_set: 0 };
    assert_eq!(straight.facing(), Some(d(0, 0, 5)));
    let reverse = Enemy { current_path: d(0, 0, -5), last_path_set: 0 };
    assert_eq!(reverse.facing(), Some(d(0, 0, -5)));
    let back = Enemy { current_path: d(-1, 2, 0), last_path_set: 0 };
    assert_eq!(back.facing(), Some(d(-1, 2, 0)));
    let still = Enemy { current_path: d(0, 0, 0), last_path_set: 0 };
    assert_eq!(still.facing(), None);
    let up = Enemy { current_path: d(0, 7, 0), last_path_set: 0 };
    assert_eq!(up.facing(), None);
}

#[test]
fn agent_along_a_corridor_faces_its_target() {
    // No route, and the target straight ahead along z.
    let mut enemy = Enemy::new(0);
    assert!(move_enemy(&mut enemy, 401, p(0, 0, 0), p(0, 0, 5), &PathResult::NoRoute));
    assert_eq!(enemy.current_path, d(0, 0, 5));
    let heading = enemy.facing().unwrap();
    assert_eq!((heading.x as f64).atan2(heading.z as f64), 0.0);
}

#[test]
fn enemy_speed_is_ten_units_a_second() {
    assert_eq!(ENEMY_SPEED, 10);
}
