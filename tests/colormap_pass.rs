use mandelbrot::colormap::{
    apply_colormap, plan_dispatch, sizes_match, workgroups, ColormapPlugin, ImageSize,
    Workgroups,
};

fn size(width: u32, height: u32) -> ImageSize {
    ImageSize { width, height }
}

#[test]
fn plugin_remembers_previous_node() {
    let p = ColormapPlugin::with_previous("mandelbrot_pass");
    assert_eq!(p.prev_node, "mandelbrot_pass");
}

#[test]
fn workgroups_round_up() {
    assert_eq!(workgroups(size(1920, 1080)), Workgroups { x: 240, y: 135, z: 1 });
    assert_eq!(workgroups(size(10, 17)), Workgroups { x: 2, y: 3, z: 1 });
    assert_eq!(workgroups(size(0, 8)), Workgroups { x: 0, y: 1, z: 1 });
    assert_eq!(workgroups(size(u32::MAX, 1)).x, 536870912);
}

#[test]
fn sizes_must_match_exactly() {
    assert!(sizes_match(size(4, 3), size(4, 3)));
    assert!(!sizes_match(size(4, 3), size(3, 4)));
    assert!(!sizes_match(size(4, 3), size(4, 2)));
}

#[test]
fn dispatch_only_with_all_images_of_matching_size() {
    let s = Some(size(16, 9));
    assert_eq!(plan_dispatch(s, s, Some(size(256, 1))), Some(Workgroups { x: 2, y: 2, z: 1 }));
    assert_eq!(plan_dispatch(s, Some(size(16, 8)), Some(size(256, 1))), None);
    assert_eq!(plan_dispatch(None, s, Some(size(256, 1))), None);
    assert_eq!(plan_dispatch(s, None, Some(size(256, 1))), None);
    assert_eq!(plan_dispatch(s, s, None), None);
}

#[test]
fn colormap_maps_each_texel() {
    let input = vec![0u32, 1, 2, 9, 1, 0];
    let palette = vec![10u32, 20, 30];
    let mut output = vec![0u32; 6];
    assert!(apply_colormap(&input, size(3, 2), &palette, &mut output, size(3, 2)));
    assert_eq!(output, vec![10, 20, 30, 30, 20, 10]);
}

#[test]
fn colormap_with_mismatched_sizes_leaves_output() {
    let input = vec![0u32, 1, 2, 1, 0, 2];
    let palette = vec![10u32, 20, 30];
    let mut output = vec![7u32; 6];
    assert!(!apply_colormap(&input, size(3, 2), &palette, &mut output, size(2, 3)));
    assert_eq!(output, vec![7u32; 6]);
    let mut small = vec![5u32; 4];
    assert!(!apply_colormap(&input, size(3, 2), &palette, &mut small, size(2, 2)));
    assert_eq!(small, vec![5u32; 4]);
}

#[test]
fn colormap_with_empty_palette_leaves_output() {
    let input = vec![0u32, 1];
    let mut output = vec![3u32, 4];
    assert!(!apply_colormap(&input, size(2, 1), &Vec::new(), &mut output, size(2, 1)));
    assert_eq!(output, vec![3, 4]);
}
