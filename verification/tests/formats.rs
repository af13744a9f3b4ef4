use mesh2splat::gaussian::{Gaussian, F32_ONE, F32_ZERO};
use mesh2splat::ply::{encode_ply, PLY_RECORD_SIZE};
use mesh2splat::splat::{encode_splat, splat_file_size, SPLAT_RECORD_SIZE};

fn bits3(v: [f32; 3]) -> [u32; 3] {
    [v[0].to_bits(), v[1].to_bits(), v[2].to_bits()]
}

fn bits4(v: [f32; 4]) -> [u32; 4] {
    [v[0].to_bits(), v[1].to_bits(), v[2].to_bits(), v[3].to_bits()]
}

fn sample() -> Gaussian {
    Gaussian::new(
        bits3([1.0, -2.5, 3.25]),
        bits3([0.0, 0.0, 1.0]),
        bits3([0.5, 0.25, 0.005]),
        bits4([0.1, 0.2, 0.3, 0.9]),
        bits4([0.8, 0.6, 0.4, 1.0]),
        0.75f32.to_bits(),
    )
}

fn header(count: usize) -> Vec<u8> {
    let mut text = String::new();
    text.push_str("ply\n");
    text.push_str("format binary_little_endian 1.0\n");
    text.push_str(&format!("element vertex {}\n", count));
    for name in [
        "x", "y", "z", "nx", "ny", "nz", "f_dc_0", "f_dc_1", "f_dc_2", "opacity", "scale_0",
        "scale_1", "scale_2", "rot_0", "rot_1", "rot_2", "rot_3",
    ] {
        text.push_str(&format!("property float {}\n", name));
    }
    text.push_str("end_header\n");
    text.into_bytes()
}

#[test]
fn ply_of_no_gaussians_is_the_header_alone() {
    assert_eq!(encode_ply(&[]), header(0));
}

#[test]
fn ply_record_holds_the_seventeen_properties_in_order() {
    let g = sample();
    let bytes = encode_ply(&[g]);
    let mut expected = header(1);
    let values: [f32; 17] = [
        1.0, -2.5, 3.25, 0.0, 0.0, 1.0, 0.8, 0.6, 0.4, 0.75, 0.5, 0.25, 0.005, 0.1, 0.2, 0.3, 0.9,
    ];
    for v in values {
        expected.extend_from_slice(&v.to_le_bytes());
    }
    assert_eq!(bytes, expected);
}

#[test]
fn ply_length_is_header_plus_68_bytes_per_gaussian() {
    let gs = vec![sample(), Gaussian::default(), sample()];
    let bytes = encode_ply(&gs);
    assert_eq!(PLY_RECORD_SIZE, 68);
    assert_eq!(bytes.len(), header(3).len() + 3 * 68);
    // The second record decodes back to the default Gaussian's position.
    let start = header(3).len() + 68;
    let x = u32::from_le_bytes([bytes[start], bytes[start + 1], bytes[start + 2], bytes[start + 3]]);
    assert_eq!(x, F32_ZERO);
    let nx_at = start + 4 * 4;
    let ny = u32::from_le_bytes([bytes[nx_at], bytes[nx_at + 1], bytes[nx_at + 2], bytes[nx_at + 3]]);
    assert_eq!(ny, F32_ONE);
}

#[test]
fn ply_header_counts_many_gaussians_in_decimal() {
    let gs = vec![Gaussian::default(); 12345];
    let bytes = encode_ply(&gs);
    let h = header(12345);
    assert_eq!(&bytes[..h.len()], &h[..]);
    assert_eq!(bytes.len(), h.len() + 12345 * 68);
    let text = String::from_utf8(bytes[..h.len()].to_vec()).unwrap();
    assert!(text.contains("element vertex 12345\n"));
}

#[test]
fn splat_record_layout() {
    let g = sample();
    let bytes = encode_splat(&[g], &[[204, 153, 102, 191]]);
    let mut expected = Vec::new();
    for v in [1.0f32, -2.5, 3.25, 0.5, 0.25, 0.005] {
        expected.extend_from_slice(&v.to_le_bytes());
    }
    expected.extend_from_slice(&[204, 153, 102, 191]);
    for v in [0.1f32, 0.2, 0.3, 0.9] {
        expected.extend_from_slice(&v.to_le_bytes());
    }
    assert_eq!(bytes, expected);
    assert_eq!(bytes.len(), SPLAT_RECORD_SIZE);
    assert_eq!(SPLAT_RECORD_SIZE, 44);
}

#[test]
fn splat_of_no_gaussians_is_empty() {
    assert!(encode_splat(&[], &[]).is_empty());
}

#[test]
fn splat_records_follow_one_another() {
    let gs = vec![sample(), Gaussian::default()];
    let bytes = encode_splat(&gs, &[[1, 2, 3, 4], [5, 6, 7, 8]]);
    assert_eq!(bytes.len(), 2 * 44);
    assert_eq!(&bytes[44 + 24..44 + 28], &[5, 6, 7, 8]);
    let w = u32::from_le_bytes([bytes[44 + 40], bytes[44 + 41], bytes[44 + 42], bytes[44 + 43]]);
    assert_eq!(w, F32_ONE);
}

#[test]
fn splat_file_size_is_the_encoded_size() {
    assert_eq!(splat_file_size(0), 0);
    assert_eq!(splat_file_size(1), 44);
    assert_eq!(splat_file_size(1000), 44000);
    let gs = vec![Gaussian::default(); 7];
    assert_eq!(encode_splat(&gs, &[[0, 0, 0, 0]; 7]).len(), splat_file_size(7));
}

#[test]
fn default_gaussian_matches_its_documented_values() {
    let g = Gaussian::default();
    assert_eq!(g.position, [0.0f32.to_bits(); 3]);
    assert_eq!(g.normal, [0.0f32.to_bits(), 1.0f32.to_bits(), 0.0f32.to_bits()]);
    assert_eq!(g.scale, [1.0f32.to_bits(); 3]);
    assert_eq!(g.rotation, [0.0f32.to_bits(), 0.0f32.to_bits(), 0.0f32.to_bits(), 1.0f32.to_bits()]);
    assert_eq!(g.color, [1.0f32.to_bits(); 4]);
    assert_eq!(g.opacity, 1.0f32.to_bits());
    let d: Gaussian = Default::default();
    assert_eq!(d, g);
}

#[test]
fn new_gaussian_keeps_every_attribute() {
    let g = sample();
    assert_eq!(g.position, bits3([1.0, -2.5, 3.25]));
    assert_eq!(g.normal, bits3([0.0, 0.0, 1.0]));
    assert_eq!(g.scale, bits3([0.5, 0.25, 0.005]));
    assert_eq!(g.rotation, bits4([0.1, 0.2, 0.3, 0.9]));
    assert_eq!(g.color, bits4([0.8, 0.6, 0.4, 1.0]));
    assert_eq!(g.opacity, 0.75f32.to_bits());
}
