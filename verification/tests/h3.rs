use comfy_executor::h3::{h3_mode, h3_negative, h3_prompt, H3Mode};

#[test]
fn director_modes() {
    assert_eq!(h3_mode("t2va", false, false), H3Mode::T2VA);
    assert_eq!(h3_mode("anything", true, false), H3Mode::I2VA);
    assert_eq!(h3_mode("t2va", false, true), H3Mode::Ref2VA);
    assert_eq!(h3_mode("t2va", true, true), H3Mode::I2VA);
    assert_eq!(h3_mode("mr2va", true, true), H3Mode::MR2VA);
    assert_eq!(h3_mode("ref2va", true, false), H3Mode::Ref2VA);
    assert_eq!(h3_mode("i2va", false, false), H3Mode::I2VA);
}

#[test]
fn director_prompts() {
    assert_eq!(h3_prompt("A beach", "waves crash"), "A beach. waves crash");
    assert_eq!(h3_prompt("A beach", "   "), "A beach");
    assert_eq!(h3_prompt("A beach", ""), "A beach");
    assert_eq!(h3_negative("blurry", Some("dark")), "blurry. dark");
    assert_eq!(h3_negative("blurry", Some("")), "blurry");
    assert_eq!(h3_negative("blurry", None), "blurry");
}
