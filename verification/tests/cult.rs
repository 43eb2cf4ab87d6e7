//! Tests of the cooperative single-threaded network of goose watchers.

use pheromessage::data::GossipSet;
use pheromessage::goose::{color_for_set, color_key, PrimaryColor, UniformCult};

#[test]
fn add_blue() {
    let mut cult = UniformCult::new(100, 10);
    cult.add_color(50, PrimaryColor::Blue);
    assert_eq!(255, cult.colors()[50]);
    cult.tick();
    let num_blue = cult.colors().iter().filter(|c| **c == 255).count();
    assert!(num_blue > 10);
}

#[test]
fn add_red() {
    let mut cult = UniformCult::new(100, 10);
    cult.add_color(50, PrimaryColor::Red);
    assert_eq!(255 << 16, cult.colors()[50]);
}

/// Colors mix one byte per primary color present, and removing a color
/// takes its byte away.
#[test]
fn color_mixing() {
    let mut set = GossipSet::new();
    assert_eq!(0, color_for_set(&set));
    set.add_item(color_key(PrimaryColor::Red));
    assert_eq!(0xFF0000, color_for_set(&set));
    set.add_item(color_key(PrimaryColor::Blue));
    assert_eq!(0xFF00FF, color_for_set(&set));
    set.add_item(color_key(PrimaryColor::Green));
    assert_eq!(0xFFFFFF, color_for_set(&set));
    set.remove_item(color_key(PrimaryColor::Red));
    assert_eq!(0x00FFFF, color_for_set(&set));
}

/// Ticking an idle cult reports no messages remaining and changes nothing.
#[test]
fn idle_cult_reports_no_messages() {
    let mut cult = UniformCult::new(3, 1);
    assert!(!cult.tick());
    assert_eq!(&vec![0, 0, 0], cult.colors());
}

/// Removing a color starting at a watcher clears that watcher's guess once
/// the removal outweighs the add.
#[test]
fn remove_color_clears_guess() {
    let mut cult = UniformCult::new(4, 3);
    cult.add_color(1, PrimaryColor::Green);
    assert_eq!(0x00FF00, cult.colors()[1]);
    cult.remove_color(1, PrimaryColor::Green);
    assert_eq!(0, cult.colors()[1]);
    // Drain the network: everyone ends up with a balanced count, so no
    // watcher shows green.
    while cult.tick() {}
    for color in cult.colors() {
        assert_eq!(0, *color);
    }
}

/// The cooperative network converges: with full fanout, after enough
/// ticks, every watcher sees the same mixed color.
#[test]
fn cooperative_convergence() {
    let mut cult = UniformCult::new(30, 29);
    cult.add_color(0, PrimaryColor::Red);
    cult.add_color(17, PrimaryColor::Blue);
    while cult.tick() {}
    for color in cult.colors() {
        assert_eq!(0xFF00FF, *color);
    }
}
