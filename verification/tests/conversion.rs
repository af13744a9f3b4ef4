use mesh2splat::converter::{
    conversion_fits, decode_gpu_gaussians, plan_conversion, ShaderParams, GAUSSIANS_PER_TRIANGLE, GPU_GAUSSIAN_SIZE,
    WORKGROUP_SIZE,
};

#[test]
fn three_gaussians_per_triangle() {
    let plan = plan_conversion(9, 1.0f32.to_bits(), 0.65f32.to_bits());
    assert_eq!(plan.triangle_count, 3);
    assert_eq!(plan.gaussian_count, 9);
    assert_eq!(plan.output_buffer_size, 9 * 96);
    assert_eq!(plan.workgroup_count, 1);
    assert_eq!(
        plan.params,
        ShaderParams { density: 1.0f32.to_bits(), gaussian_scale: 0.65f32.to_bits(), triangle_count: 3 }
    );
    assert_eq!(GAUSSIANS_PER_TRIANGLE, 3);
    assert_eq!(GPU_GAUSSIAN_SIZE, 96);
    assert_eq!(WORKGROUP_SIZE, 64);
}

#[test]
fn a_partial_triangle_is_dropped() {
    let plan = plan_conversion(11, 0, 0);
    assert_eq!(plan.triangle_count, 3);
    assert_eq!(plan.gaussian_count, 9);
}

#[test]
fn workgroups_round_up() {
    assert_eq!(plan_conversion(0, 0, 0).workgroup_count, 0);
    assert_eq!(plan_conversion(3, 0, 0).workgroup_count, 1);
    assert_eq!(plan_conversion(64 * 3, 0, 0).workgroup_count, 1);
    assert_eq!(plan_conversion(65 * 3, 0, 0).workgroup_count, 2);
    assert_eq!(plan_conversion(128 * 3 + 2, 0, 0).workgroup_count, 2);
}

#[test]
fn oversized_meshes_do_not_fit() {
    assert!(conversion_fits(0));
    assert!(conversion_fits(3_000_000));
    assert!(!conversion_fits(usize::MAX));
}

#[test]
fn gpu_records_decode_field_by_field() {
    let mut bytes = Vec::new();
    for record in 0..2u32 {
        for word in 0..24u32 {
            bytes.extend_from_slice(&(record * 100 + word).to_le_bytes());
        }
    }
    let gs = decode_gpu_gaussians(&bytes);
    assert_eq!(gs.len(), 2);
    assert_eq!(gs[0].position, [0, 1, 2]);
    assert_eq!(gs[0].normal, [4, 5, 6]);
    assert_eq!(gs[0].scale, [8, 9, 10]);
    assert_eq!(gs[0].rotation, [12, 13, 14, 15]);
    assert_eq!(gs[0].color, [16, 17, 18, 19]);
    assert_eq!(gs[0].opacity, 20);
    assert_eq!(gs[1].position, [100, 101, 102]);
    assert_eq!(gs[1].opacity, 120);
    assert!(decode_gpu_gaussians(&[]).is_empty());
}
