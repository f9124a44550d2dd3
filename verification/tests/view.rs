use xl_view::view::{MAX_SCALE, MIN_SCALE, ViewChange, ViewMode, zoomed_scale};

/// A view of an image, with its scale but without its center.
struct View {
    image: (u32, u32),
    viewport: (u32, u32),
    scale: f64,
    mode: ViewMode,
}

impl View {
    fn fit(image: (u32, u32), viewport: (u32, u32)) -> Self {
        let mut view = Self { image, viewport, scale: 1.0, mode: ViewMode::Manual };
        let change = view.mode.set_fit();
        view.apply(change);
        view
    }

    fn fit_scale(&self) -> f64 {
        let width_scale = f64::from(self.viewport.0) / f64::from(self.image.0);
        let height_scale = f64::from(self.viewport.1) / f64::from(self.image.1);
        width_scale.min(height_scale)
    }

    fn apply(&mut self, change: ViewChange) {
        match change {
            ViewChange::Refit => self.scale = self.fit_scale(),
            ViewChange::SetScale(bits) | ViewChange::Zoom(bits) => {
                self.scale = f64::from_bits(bits);
            }
            ViewChange::Ignored | ViewChange::ClampCenter | ViewChange::Pan => {}
        }
    }

    fn zoom(&mut self, factor: f64) {
        let change = self.mode.zoom_at(
            factor.to_bits(),
            (self.scale * factor).to_bits(),
            (self.fit_scale() * 16.0).to_bits(),
            self.scale.to_bits(),
        );
        self.apply(change);
    }

    fn set_viewport(&mut self, viewport: (u32, u32)) {
        self.viewport = viewport;
        let change = self.mode.set_viewport();
        self.apply(change);
    }

    fn set_one_to_one(&mut self, scale_factor: f64) {
        let change = self.mode.set_one_to_one(scale_factor.to_bits());
        self.apply(change);
    }

    fn set_scale_factor(&mut self, scale_factor: f64) {
        let change = self.mode.set_scale_factor(scale_factor.to_bits());
        self.apply(change);
    }
}

fn assert_near(actual: f64, expected: f64) {
    assert!((actual - expected).abs() < 1e-9, "{actual} != {expected}");
}

#[test]
fn tiny_fitted_image_zooms_in_without_shrinking() {
    let mut view = View::fit((2, 3), (600, 600));
    assert_near(view.scale, 200.0);
    view.zoom(1.25);
    assert_near(view.scale, 250.0);
}

#[test]
fn tiny_image_manual_zoom_is_limited_relative_to_fit() {
    let mut view = View::fit((2, 3), (600, 600));
    view.zoom(100.0);
    assert_near(view.scale, 3_200.0);
}

#[test]
fn ordinary_image_keeps_the_absolute_manual_zoom_limit() {
    let mut view = View::fit((1000, 1000), (1000, 1000));
    view.zoom(100.0);
    assert_near(view.scale, f64::from_bits(MAX_SCALE));
}

#[test]
fn zoom_in_never_shrinks_after_a_manual_viewport_change() {
    let mut view = View::fit((2, 3), (600, 600));
    view.zoom(10.0);
    assert_near(view.scale, 2_000.0);
    view.set_viewport((60, 60));
    view.zoom(2.0);
    assert_near(view.scale, 2_000.0);
}

#[test]
fn non_finite_pan_is_ignored() {
    let mut view = View::fit((2000, 1000), (1000, 1000));
    view.set_one_to_one(1.0);
    let mode = view.mode;
    for (delta_x, delta_y) in [
        (f64::NAN, 0.0),
        (0.0, f64::NAN),
        (f64::INFINITY, 0.0),
        (0.0, f64::NEG_INFINITY),
    ] {
        let change = view.mode.pan_by(delta_x.to_bits(), delta_y.to_bits());
        assert_eq!(change, ViewChange::Ignored);
        assert_eq!(view.mode, mode);
    }
}

#[test]
fn one_to_one_uses_logical_pixel_scale() {
    let mut view = View::fit((100, 100), (800, 600));
    view.set_one_to_one(2.0);
    assert_near(view.scale, 2.0);
    view.set_scale_factor(1.5);
    assert_near(view.scale, 1.5);
}

#[test]
fn manual_zoom_survives_monitor_scale_changes() {
    let mut view = View::fit((100, 100), (800, 600));
    view.zoom(2.0);
    let scale = view.scale;
    view.set_scale_factor(1.5);
    assert_near(view.scale, scale);
}

#[test]
fn zoomed_scales_have_limits() {
    let scale = |product: f64, fit_limit: f64, previous: f64| {
        f64::from_bits(zoomed_scale(product.to_bits(), fit_limit.to_bits(), previous.to_bits()))
    };
    assert_eq!(scale(0.001, 1.0, 0.1), f64::from_bits(MIN_SCALE));
    assert_eq!(scale(5.0, 1.0, 4.0), 5.0);
    assert_eq!(scale(65.0, 1.0, 60.0), 64.0);
    assert_eq!(scale(90.0, 80.0, 60.0), 80.0);
    assert_eq!(scale(f64::INFINITY, 80.0, 100.0), 100.0);
    assert_eq!(scale(100.0, f64::NAN, f64::NAN), 64.0);
    assert!(scale(f64::NAN, 80.0, 100.0).is_nan());
    for previous in [0.001, 0.5, 64.0, 70.0, 5_000.0] {
        for factor in [1.0, 1.25, 1e300] {
            assert!(scale(previous * factor, 16.0, previous) >= previous);
        }
    }
}
