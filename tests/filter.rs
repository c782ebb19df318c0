use raytracer::color::antialias::AntialiasingFilter;
use raytracer::color::filter::Filter;
use raytracer::color::rgb::RgbColor;

#[test]
fn name() {
    let filter = AntialiasingFilter::new(2);
    let mut render = vec![RgbColor::new(10, 20, 30); 3];
    Filter::apply_filter(&filter, &mut render);
    assert_eq!(render.len(), 3);
    assert_eq!(render[2], RgbColor::new(10, 20, 30));
}
