use battleground_construct::gun_battery::{BatteryPhase, GunBattery, GunBatteryConfig};

type Mat4 = cgmath::Matrix4<f32>;
type Vec3 = cgmath::Vector3<f32>;
type World = Vec<Mat4>;
type FireEffect = std::rc::Rc<dyn for<'a> Fn(&'a mut World, usize, Mat4)>;

/// Where a gun sits on the battery, standing in for its pose.
type Pose = [f32; 3];

fn offset(x: f32, y: f32, z: f32) -> Pose {
    [x, y, z]
}

#[test]
fn test_gun_battery() {
    {
        let inter_gun_duration = 1;
        let gun_reload = 2;
        let battery_reload = 3;
        let fire_effect: FireEffect = std::rc::Rc::new(|_, _, _| {});
        let config = GunBatteryConfig {
            fire_effect,
            inter_gun_duration,
            gun_reload,
            battery_reload,
            poses: vec![
                Mat4::from_translation(Vec3::new(0.0, 0.0, 0.0)),
                Mat4::from_translation(Vec3::new(0.0, 1.0, 0.0)),
                Mat4::from_translation(Vec3::new(0.0, 2.0, 0.0)),
                Mat4::from_translation(Vec3::new(0.0, 3.0, 0.0)),
            ],
        };

        let mut battery = GunBattery::new(config);
        let mut t = 0;

        assert!(battery.is_ready());
        battery.update(t);
        assert!(battery.is_ready());
        battery.fired(t);
        assert_eq!(battery.is_ready(), false); // not ready right now, in between the inter gun
        t += i64::from(inter_gun_duration);
        battery.update(t);
        assert!(battery.is_ready());
        battery.fired(t);
        t += i64::from(inter_gun_duration);
        t += i64::from(inter_gun_duration);
        battery.update(t);
        battery.fired(t);
        battery.update(t);
        assert_eq!(battery.is_ready(), false);

        // Next shot is the last in the gun battery.
        battery.fired(t);
        assert_eq!(battery.is_ready(), false);
        t += i64::from(inter_gun_duration);
        battery.update(t);
        assert_eq!(battery.is_ready(), false);
        t += i64::from(inter_gun_duration);
        battery.update(t);
        assert_eq!(battery.is_ready(), false);
        t += i64::from(inter_gun_duration);
        battery.update(t);
        assert_eq!(battery.is_ready(), true); // at start again.
        assert_eq!(battery.gun_index(), 0); // at start again.
    }

    {
        let inter_gun_duration = 0;
        let gun_reload = 2;
        let battery_reload = 3;
        let fire_effect: FireEffect = std::rc::Rc::new(|_, _, _| {});
        let config = GunBatteryConfig {
            fire_effect,
            inter_gun_duration,
            gun_reload,
            battery_reload,
            poses: vec![
                Mat4::from_translation(Vec3::new(0.0, 0.0, 0.0)),
                Mat4::from_translation(Vec3::new(0.0, 1.0, 0.0)),
                Mat4::from_translation(Vec3::new(0.0, 2.0, 0.0)),
            ],
        };

        let mut battery = GunBattery::new(config);
        let mut t = 0;

        assert!(battery.is_ready());
        battery.update(t);
        assert!(battery.is_ready());
        battery.fired(t);
        assert!(battery.is_ready()); // no inter gun delay.
        battery.fired(t);
        assert!(battery.is_ready());

        // Next shot is the last in the gun battery.
        battery.fired(t);
        assert_eq!(battery.is_ready(), false);
        t += i64::from(battery_reload);
        battery.update(t);
        assert_eq!(battery.is_ready(), true); // at start again.
        assert_eq!(battery.gun_index(), 0); // at start again.
    }
}

#[test]
fn fired_hands_out_the_pose_and_the_effect_acts_on_the_world() {
    let fire_effect: FireEffect = std::rc::Rc::new(|world, _, pose| world.push(pose));
    let mut battery = GunBattery::new(GunBatteryConfig {
        fire_effect,
        inter_gun_duration: 0,
        gun_reload: 0,
        battery_reload: 0,
        poses: vec![
            Mat4::from_translation(Vec3::new(0.0, 1.0, 0.0)),
            Mat4::from_translation(Vec3::new(0.0, 2.0, 0.0)),
        ],
    });
    let mut world: World = vec![];
    for _ in 0..3 {
        let muzzle_pose = battery.fired(0);
        (battery.effect().clone())(&mut world, 7, muzzle_pose);
    }
    assert_eq!(
        world,
        vec![
            Mat4::from_translation(Vec3::new(0.0, 1.0, 0.0)),
            Mat4::from_translation(Vec3::new(0.0, 2.0, 0.0)),
            Mat4::from_translation(Vec3::new(0.0, 1.0, 0.0)),
        ]
    );
}

fn battery(
    inter_gun_duration: u32,
    gun_reload: u32,
    battery_reload: u32,
    guns: usize,
) -> GunBattery<Pose, &'static str> {
    let mut poses = vec![];
    for i in 0..guns {
        poses.push(offset(0.0, i as f32, 0.0));
    }
    GunBattery::new(GunBatteryConfig {
        fire_effect: "bang",
        inter_gun_duration,
        gun_reload,
        battery_reload,
        poses,
    })
}

#[test]
fn new_battery_is_ready_and_untriggered() {
    let battery = battery(1, 2, 3, 4);
    assert!(battery.is_ready());
    assert!(!battery.is_triggered());
    assert_eq!(battery.gun_index(), 0);
    assert_eq!(battery.gun_count(), 4);
    assert_eq!(*battery.effect(), "bang");
}

#[test]
fn trigger_is_set_and_released() {
    let mut battery = battery(1, 2, 3, 2);
    battery.set_trigger(true);
    assert!(battery.is_triggered());
    assert!(battery.is_ready());
    assert_eq!(battery.gun_index(), 0);
    battery.set_trigger(false);
    assert!(!battery.is_triggered());
}

#[test]
fn fired_returns_the_poses_round_robin() {
    let mut battery = battery(0, 0, 0, 3);
    assert_eq!(battery.fired(5), offset(0.0, 0.0, 0.0));
    assert_eq!(battery.gun_index(), 1);
    assert_eq!(battery.fired(5), offset(0.0, 1.0, 0.0));
    assert_eq!(battery.gun_index(), 2);
    assert_eq!(battery.fired(5), offset(0.0, 2.0, 0.0));
    assert_eq!(battery.gun_index(), 0);
    assert_eq!(battery.fired(5), offset(0.0, 0.0, 0.0));
    assert_eq!(battery.gun_index(), 1);
}

#[test]
fn update_is_idempotent() {
    let mut battery = battery(1, 2, 3, 4);
    battery.fired(10);
    battery.fired(11);
    for t in [11, 12, 13, 14, 20] {
        battery.update(t);
        let ready = battery.is_ready();
        let index = battery.gun_index();
        battery.update(t);
        battery.update(t);
        assert_eq!(battery.is_ready(), ready);
        assert_eq!(battery.gun_index(), index);
        assert_eq!(index, 2);
    }
}

#[test]
fn update_does_not_depend_on_earlier_updates() {
    let mut once = battery(2, 5, 7, 3);
    let mut often = battery(2, 5, 7, 3);
    once.fired(0);
    often.fired(0);
    for t in [0, 1, 100, 3, 1] {
        often.update(t);
    }
    once.update(2);
    often.update(2);
    assert_eq!(once.is_ready(), often.is_ready());
    assert_eq!(once.is_ready(), true);
    assert_eq!(once.gun_index(), often.gun_index());
}

#[test]
fn not_ready_until_spacing_has_elapsed() {
    let mut battery = battery(10, 0, 0, 2);
    battery.fired(100);
    assert!(!battery.is_ready());
    battery.update(109);
    assert!(!battery.is_ready());
    battery.update(110);
    assert!(battery.is_ready());
}

#[test]
fn not_ready_until_battery_reload_has_elapsed() {
    let mut battery = battery(0, 0, 10, 2);
    battery.fired(100);
    assert!(battery.is_ready());
    battery.fired(100);
    assert_eq!(battery.gun_index(), 0);
    assert!(!battery.is_ready());
    battery.update(109);
    assert!(!battery.is_ready());
    assert_eq!(battery.gun_index(), 0);
    battery.update(110);
    assert!(battery.is_ready());
}

#[test]
fn not_ready_until_a_gun_has_reloaded() {
    let mut battery = battery(0, 10, 0, 1);
    battery.fired(100);
    assert!(!battery.is_ready());
    battery.update(109);
    assert!(!battery.is_ready());
    battery.update(110);
    assert!(battery.is_ready());
}

#[test]
fn zero_spacing_fires_back_to_back() {
    let mut battery = battery(0, 2, 3, 5);
    for shot in 0..4 {
        assert!(battery.is_ready());
        assert_eq!(battery.gun_index(), shot);
        battery.fired(7);
    }
    assert!(battery.is_ready());
    assert_eq!(battery.gun_index(), 4);
    battery.fired(7);
    assert!(!battery.is_ready());
    assert_eq!(battery.gun_index(), 0);
}

#[test]
fn fresh_battery_is_ready_whatever_its_durations() {
    // Nothing has fired yet, so no spacing and no reload is to be waited for.
    let mut slow = battery(5, 2, 3, 1);
    assert!(slow.is_ready());
    slow.update(0);
    assert!(slow.is_ready());
    assert_eq!(slow.phase(0), BatteryPhase::Ready);
    slow.update(3);
    assert!(slow.is_ready());
    let mut slowest = battery(u32::MAX, 0, u32::MAX, 2);
    slowest.update(0);
    assert!(slowest.is_ready());
    // After the first shot the spacing counts.
    slowest.fired(0);
    slowest.update(i64::from(u32::MAX) - 1);
    assert!(!slowest.is_ready());
    slowest.update(i64::from(u32::MAX));
    assert!(slowest.is_ready());
}

#[test]
fn fires_only_if_ready_and_triggered() {
    let mut empty = battery(0, 0, 0, 0);
    let mut battery = battery(1, 2, 3, 2);
    // Ready, not triggered.
    assert_eq!(battery.fire_if_due(0), None);
    assert_eq!(battery.gun_index(), 0);
    assert!(battery.is_ready());
    // Ready and triggered.
    battery.set_trigger(true);
    assert_eq!(battery.fire_if_due(0), Some(offset(0.0, 0.0, 0.0)));
    assert_eq!(battery.gun_index(), 1);
    assert!(!battery.is_ready());
    // Triggered, not ready: nothing changes, also at a later time.
    assert_eq!(battery.fire_if_due(5), None);
    assert_eq!(battery.gun_index(), 1);
    assert!(!battery.is_ready());
    assert!(battery.is_triggered());
    // Ready again after a refresh.
    battery.update(1);
    assert_eq!(battery.fire_if_due(1), Some(offset(0.0, 1.0, 0.0)));
    assert_eq!(battery.gun_index(), 0);
    // A battery without guns never fires.
    empty.set_trigger(true);
    assert!(empty.is_ready());
    assert_eq!(empty.fire_if_due(0), None);
    assert!(empty.is_ready());
}

#[test]
fn battery_without_guns_is_never_ready_after_update() {
    let mut battery = battery(0, 0, 0, 0);
    assert_eq!(battery.gun_count(), 0);
    battery.update(1000);
    assert!(!battery.is_ready());
}

#[test]
fn times_at_the_ends_of_the_clock_do_not_overflow() {
    let mut battery = battery(u32::MAX, u32::MAX, u32::MAX, 2);
    battery.fired(i64::MIN);
    battery.update(i64::MAX);
    assert!(battery.is_ready());
    battery.fired(i64::MAX);
    battery.update(i64::MIN);
    assert!(!battery.is_ready());
}

#[test]
fn phases_of_the_firing_cycle() {
    let mut battery = battery(1, 2, 5, 2);
    assert_eq!(battery.phase(0), BatteryPhase::Ready);
    battery.fired(0);
    assert_eq!(battery.phase(0), BatteryPhase::Cycling);
    assert_eq!(battery.phase(1), BatteryPhase::Ready);
    battery.fired(1);
    assert_eq!(battery.phase(1), BatteryPhase::Reloading);
    assert_eq!(battery.phase(5), BatteryPhase::Reloading);
    assert_eq!(battery.phase(6), BatteryPhase::Ready);
    // The phase looks at the clock; the flag waits for the refresh.
    assert!(!battery.is_ready());
    battery.update(6);
    assert!(battery.is_ready());
}
