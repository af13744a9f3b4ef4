use mesh2splat::export::{export_file_name, export_formats, export_message, extension, format_for_extension, ExportFormat};
use mesh2splat::gaussian::Gaussian;
use mesh2splat::surface::{preferred_format_index, surface_extent};
use mesh2splat::gui::{f32_is_zero, GuiState, DEFAULT_DENSITY, DEFAULT_SCALE};

#[test]
fn output_format_follows_the_extension() {
    assert_eq!(format_for_extension("ply"), Some(ExportFormat::Ply));
    assert_eq!(format_for_extension("splat"), Some(ExportFormat::Splat));
    assert_eq!(format_for_extension("PLY"), None);
    assert_eq!(format_for_extension("obj"), None);
    assert_eq!(format_for_extension(""), None);
    assert_eq!(format_for_extension("splats"), None);
    assert_eq!(extension(ExportFormat::Ply), "ply");
    assert_eq!(extension(ExportFormat::Splat), "splat");
}

#[test]
fn export_names_use_the_input_stem() {
    assert_eq!(export_file_name(Some("helmet"), ExportFormat::Ply), "helmet.ply");
    assert_eq!(export_file_name(Some("helmet"), ExportFormat::Splat), "helmet.splat");
    assert_eq!(export_file_name(None, ExportFormat::Splat), "output.splat");
}

#[test]
fn export_message_names_every_file_written() {
    assert_eq!(export_message(&[]), "");
    assert_eq!(export_message(&["/tmp/a.ply".to_string()]), "Wrote /tmp/a.ply");
    assert_eq!(
        export_message(&["/tmp/a.ply".to_string(), "/tmp/a.splat".to_string()]),
        "Wrote /tmp/a.ply, /tmp/a.splat"
    );
}

#[test]
fn export_formats_in_order() {
    assert_eq!(export_formats(true, true), vec![ExportFormat::Ply, ExportFormat::Splat]);
    assert_eq!(export_formats(false, true), vec![ExportFormat::Splat]);
    assert_eq!(export_formats(true, false), vec![ExportFormat::Ply]);
    assert!(export_formats(false, false).is_empty());
}

#[test]
fn defaults_are_one_and_sixty_five_hundredths() {
    assert_eq!(DEFAULT_DENSITY, 1.0f32.to_bits());
    assert_eq!(DEFAULT_SCALE, 0.65f32.to_bits());
    assert!(f32_is_zero(0.0f32.to_bits()));
    assert!(f32_is_zero((-0.0f32).to_bits()));
    assert!(!f32_is_zero(f32::MIN_POSITIVE.to_bits()));
    assert!(!f32_is_zero(f32::NAN.to_bits()));
}

#[test]
fn resuming_sets_defaults_and_reports_readiness() {
    let mut s = GuiState::new();
    assert_eq!(s.status, "");
    assert!(!s.can_convert());
    assert!(!s.can_export());
    s.on_resumed(None);
    assert_eq!(s.density, 1.0f32.to_bits());
    assert_eq!(s.scale, 0.65f32.to_bits());
    assert!(s.export_ply && s.export_splat);
    assert_eq!(s.status, "Ready. Drop a .glb/.gltf or click Open…");
    assert_eq!(s.error, None);
}

#[test]
fn resuming_keeps_a_chosen_density() {
    let mut s = GuiState::new();
    s.density = 1.5f32.to_bits();
    s.scale = (-0.0f32).to_bits();
    s.on_resumed(Some("no adapter".to_string()));
    assert_eq!(s.density, 1.5f32.to_bits());
    assert_eq!(s.scale, 0.65f32.to_bits());
    assert_eq!(s.status, "Failed to init GPU");
    assert_eq!(s.error.as_deref(), Some("no adapter"));
}

#[test]
fn selecting_files_updates_the_status() {
    let mut s = GuiState::new();
    s.error = Some("old".to_string());
    s.on_input_selected("/models/helmet.glb".to_string());
    assert!(s.can_convert());
    assert_eq!(s.status, "Selected: /models/helmet.glb");
    assert_eq!(s.error, None);
    s.on_output_dir_selected("/out".to_string());
    assert_eq!(s.output_dir.as_deref(), Some("/out"));
    assert_eq!(s.status, "Output dir: /out");
}

#[test]
fn conversion_outcomes() {
    let mut s = GuiState::new();
    s.on_conversion_finished(Ok((vec![Gaussian::default(); 6], 7, 2.5f32.to_bits())));
    assert!(s.can_export());
    assert_eq!(s.last_count, Some(6));
    assert_eq!(s.last_triangles, Some(2));
    assert_eq!(s.last_ms, Some(2.5f32.to_bits()));
    assert_eq!(s.status, "Done.");
    s.on_conversion_finished(Err("bad mesh".to_string()));
    assert_eq!(s.status, "Conversion failed");
    assert_eq!(s.error.as_deref(), Some("bad mesh"));
    assert_eq!(s.last_count, Some(6));
    assert_eq!(s.last_triangles, Some(2));
    assert!(s.can_export());
}

#[test]
fn options_change_only_the_options() {
    let mut s = GuiState::new();
    s.on_input_selected("m.glb".to_string());
    s.set_options(1.5f32.to_bits(), 0.8f32.to_bits(), false, true);
    assert_eq!(s.density, 1.5f32.to_bits());
    assert_eq!(s.scale, 0.8f32.to_bits());
    assert!(!s.export_ply);
    assert!(s.export_splat);
    assert_eq!(s.status, "Selected: m.glb");
    assert!(s.can_convert());
    assert!(!s.can_export());
}

#[test]
fn stats_stay_in_step_with_the_gaussians() {
    let mut s = GuiState::new();
    assert_eq!((s.last_count, s.last_ms, s.last_triangles), (None, None, None));
    s.on_conversion_finished(Err("no input".to_string()));
    assert!(s.gaussians.is_none() && s.last_count.is_none() && s.last_ms.is_none());
    s.on_conversion_finished(Ok((vec![Gaussian::default(); 3], 3, 1.0f32.to_bits())));
    assert_eq!(s.last_count, Some(s.gaussians.as_ref().unwrap().len()));
    assert!(s.last_ms.is_some() && s.last_triangles.is_some());
}

#[test]
fn export_outcomes() {
    let mut s = GuiState::new();
    s.on_export_finished(None);
    assert_eq!(s.status, "Export failed");
    assert_eq!(s.error.as_deref(), Some("Nothing to export (convert first)"));
    s.on_export_finished(Some(Ok("Wrote out.splat".to_string())));
    assert_eq!(s.status, "Wrote out.splat");
    assert_eq!(s.error, None);
    s.on_export_finished(Some(Err("disk full".to_string())));
    assert_eq!(s.status, "Export failed");
    assert_eq!(s.error.as_deref(), Some("disk full"));
    s.on_render_failed("lost surface".to_string());
    assert_eq!(s.status, "Render error");
    assert_eq!(s.error.as_deref(), Some("lost surface"));
}

#[test]
fn surface_extent_is_at_least_one_pixel() {
    assert_eq!(surface_extent(0, 0), (1, 1));
    assert_eq!(surface_extent(1200, 0), (1200, 1));
    assert_eq!(surface_extent(1200, 800), (1200, 800));
}

#[test]
fn surface_format_prefers_the_first_srgb_one() {
    assert_eq!(preferred_format_index(&[false, true, true]), 1);
    assert_eq!(preferred_format_index(&[true, false]), 0);
    assert_eq!(preferred_format_index(&[false, false, false]), 0);
}
