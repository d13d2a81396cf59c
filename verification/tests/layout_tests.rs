use fnrow::layout::{default_layer, shade_pm, FunctionLayer};

#[test]
fn default_layer_is_f1_to_f12() {
    let layer = default_layer();
    assert_eq!(layer.buttons.len(), 12);
    let labels: Vec<&str> = layer.buttons.iter().map(|b| b.text.as_str()).collect();
    assert_eq!(
        labels,
        vec!["F1", "F2", "F3", "F4", "F5", "F6", "F7", "F8", "F9", "F10", "F11", "F12"]
    );
    let actions: Vec<u16> = layer.buttons.iter().map(|b| b.action).collect();
    assert_eq!(actions, vec![59, 60, 61, 62, 63, 64, 65, 66, 67, 68, 87, 88]);
}

#[test]
fn paint_plan_matches_the_layout_formula() {
    // W=2008, N=12: button_width ~ 154.46, spacing ~ 11.88.
    let layer = default_layer();
    let active = vec![false; 12];
    let plan = layer.paint_plan(&active, 1000);
    assert_eq!(plan.len(), 12);
    let r0 = &plan[0];
    assert_eq!(r0.x_denom, 169);
    assert_eq!(r0.left_num, 2008);
    assert_eq!(r0.width_num, 2008 * 13);
    let button_width = r0.width_num as f64 / r0.x_denom as f64;
    let spacing = r0.left_num as f64 / r0.x_denom as f64;
    assert!((button_width - 154.46).abs() < 0.01);
    assert!((spacing - 11.88).abs() < 0.01);
    // Vertical band of the drawn rectangle: 0.09 * 64 to 0.91 * 64.
    assert_eq!(r0.top_num, 576);
    assert_eq!(r0.height_num, 5248);
    assert_eq!(r0.y_denom, 100);
    // Button 1 starts one (button_width + spacing) further right.
    assert_eq!(plan[1].left_num, 2008 * 15);
}

#[test]
fn shades_scale_with_brightness() {
    assert_eq!(shade_pm(false, 1000), 267);
    assert_eq!(shade_pm(true, 1000), 567);
    assert_eq!(shade_pm(false, 500), 133);
    assert_eq!(shade_pm(true, 500), 283);
    assert_eq!(shade_pm(true, 0), 0);
}

#[test]
fn paint_plan_shades_follow_active_state() {
    let layer = default_layer();
    let mut active = vec![false; 12];
    active[3] = true;
    let plan = layer.paint_plan(&active, 1000);
    assert_eq!(plan[3].shade_pm, 567);
    assert_eq!(plan[2].shade_pm, 267);
}

#[test]
fn single_button_layer_plan() {
    let layer = FunctionLayer { buttons: default_layer().buttons.into_iter().take(1).collect() };
    let plan = layer.paint_plan(&vec![false], 1000);
    assert_eq!(plan.len(), 1);
    // N=1: denominator 4, button takes half the width, quarters around it.
    assert_eq!(plan[0].x_denom, 4);
    assert_eq!(plan[0].left_num, 2008);
    assert_eq!(plan[0].width_num, 2008 * 2);
}
