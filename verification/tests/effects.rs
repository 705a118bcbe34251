use cursorlight::light_core::effects::{
    ai, alarm, demo, effect, error, fade_in_out, thinking, tri_wave, Rgb,
};
use cursorlight::light_core::modes::Mode;


#[test]
fn tri_wave_up_and_down() {
    assert_eq!(tri_wave(0, 1200, 220), 0);
    assert_eq!(tri_wave(300, 1200, 220), 110);
    assert_eq!(tri_wave(599, 1200, 220), 219);
    assert_eq!(tri_wave(600, 1200, 220), 220);
    assert_eq!(tri_wave(900, 1200, 220), 110);
    assert_eq!(tri_wave(1199, 1200, 220), 1);
    assert_eq!(tri_wave(1200, 1200, 220), 0);
}

#[test]
fn fade_in_out_shape() {
    assert_eq!(fade_in_out(0, 300, 200, 400, 300, 220), 0);
    assert_eq!(fade_in_out(150, 300, 200, 400, 300, 220), 110);
    assert_eq!(fade_in_out(300, 300, 200, 400, 300, 220), 220);
    assert_eq!(fade_in_out(499, 300, 200, 400, 300, 220), 220);
    assert_eq!(fade_in_out(500, 300, 200, 400, 300, 220), 220);
    assert_eq!(fade_in_out(700, 300, 200, 400, 300, 220), 110);
    assert_eq!(fade_in_out(900, 300, 200, 400, 300, 220), 0);
    assert_eq!(fade_in_out(1100, 300, 200, 400, 300, 220), 0);
    assert_eq!(fade_in_out(1200, 300, 200, 400, 300, 220), 0);
}

#[test]
fn alarm_phases() {
    assert_eq!(alarm(0), Rgb::new(0, 0, 0));
    assert_eq!(alarm(30), Rgb::new(127, 0, 0));
    assert_eq!(alarm(60), Rgb::new(255, 0, 0));
    assert_eq!(alarm(179), Rgb::new(255, 0, 0));
    assert_eq!(alarm(180), Rgb::new(255, 0, 0));
    assert_eq!(alarm(220), Rgb::new(128, 0, 0));
    assert_eq!(alarm(259), Rgb::new(4, 0, 0));
    assert_eq!(alarm(260), Rgb::new(0, 0, 0));
    assert_eq!(alarm(320), Rgb::new(0, 220, 0));
}

#[test]
fn ai_red_suppresses_green() {
    assert_eq!(ai(0), Rgb::new(0, 0, 0));
    assert_eq!(ai(300), Rgb::new(140, 110, 0));
}

#[test]
fn thinking_is_symmetric() {
    let rgb = thinking(700);
    assert_eq!(rgb.green, rgb.yellow);
    assert_eq!(rgb.red, 0);
}

#[test]
fn error_shape() {
    assert_eq!(error(0), Rgb::new(0, 0, 0));
    assert_eq!(error(40), Rgb::new(255, 0, 0));
    assert_eq!(error(200), Rgb::new(255, 0, 0));
    assert_eq!(error(260), Rgb::new(128, 0, 0));
    assert_eq!(error(300), Rgb::new(0, 0, 0));
    assert_eq!(error(310), Rgb::new(0, 0, 0));
}

#[test]
fn static_modes() {
    assert_eq!(effect(Mode::Red, 0, 0), Rgb::new(255, 0, 0));
    assert_eq!(effect(Mode::Yellow, 0, 0), Rgb::new(0, 220, 0));
    assert_eq!(effect(Mode::Green, 0, 0), Rgb::new(0, 0, 220));
    assert_eq!(effect(Mode::Busy, 0, 0), Rgb::new(0, 220, 0));
    assert_eq!(effect(Mode::Success, 0, 0), Rgb::new(0, 0, 220));
    assert_eq!(effect(Mode::Off, 12345, 999), Rgb::new(0, 0, 0));
}

#[test]
fn demo_sequence() {
    assert_eq!(demo(0, 0), Rgb::new(0, 0, 0));
    assert_eq!(demo(600, 0), Rgb::new(0, 0, 220));
    assert_eq!(demo(1500, 0).yellow, 110);
    assert_eq!(demo(2700, 0).red, 127);
    assert_eq!(demo(5000, 5000), ai(5000));
    assert_eq!(demo(7000, 7000), thinking(7000));
    assert_eq!(demo(9000, 9000), Rgb::new(0, 220, 0));
    assert_eq!(demo(10250, 10250), error(10250));
    assert_eq!(demo(12300, 12300), alarm(12300));
    assert_eq!(demo(14300, 0), Rgb::new(255, 0, 0));
    assert_eq!(demo(15000, 0), Rgb::new(0, 0, 220));
    assert_eq!(demo(15600, 0), Rgb::new(0, 220, 0));
    assert_eq!(demo(16000, 0), demo(0, 0));
}
