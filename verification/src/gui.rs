//! The state of the interactive front end and how each event changes it.
//! The front end draws this state, performs the file dialogs, conversions
//! and exports it asks for, and reports their outcomes back as events.
use vstd::prelude::*;
use vstd::string::StringExecFns;
use crate::gaussian::Gaussian;

verus! {

/// Bit pattern of `1.0f32`, the density used when none is set.
pub const DEFAULT_DENSITY: u32 = 0x3f80_0000;

/// Bit pattern of `0.65f32`, the Gaussian scale used when none is set.
pub const DEFAULT_SCALE: u32 = 0x3f26_6666;

/// Whether the `f32` with bit pattern `bits` equals `0.0` (either sign).
pub open spec fn spec_f32_is_zero(bits: u32) -> bool {
    bits == 0x0000_0000 || bits == 0x8000_0000
}

/// Whether the `f32` with bit pattern `bits` equals `0.0` (either sign).
pub fn f32_is_zero(bits: u32) -> (zero: bool)
    ensures
        zero == spec_f32_is_zero(bits),
{
    assert((bits & 0x7fff_ffff == 0) == (bits == 0x0000_0000 || bits == 0x8000_0000))
        by (bit_vector);
    bits & 0x7fff_ffff == 0
}

/// What the front end shows and remembers between frames. `density`,
/// `scale` and `last_ms` are `f32` bit patterns; `input` and `output_dir`
/// are the displayed forms of the chosen paths; `last_triangles`,
/// `last_count` and `last_ms` are the statistics of the last successful
/// conversion, whose Gaussians are `gaussians`.
pub struct GuiState {
    pub input: Option<String>,
    pub output_dir: Option<String>,
    pub density: u32,
    pub scale: u32,
    pub export_ply: bool,
    pub export_splat: bool,
    pub status: String,
    pub error: Option<String>,
    pub last_ms: Option<u32>,
    pub last_count: Option<usize>,
    pub last_triangles: Option<usize>,
    pub gaussians: Option<Vec<Gaussian>>,
}

pub open spec fn option_string_view(s: Option<String>) -> Option<Seq<char>> {
    match s {
        Some(t) => Some(t@),
        None => None,
    }
}

pub open spec fn option_gaussians_view(g: Option<Vec<Gaussian>>) -> Option<Seq<Gaussian>> {
    match g {
        Some(v) => Some(v@),
        None => None,
    }
}

/// The contents of a `GuiState`.
#[verifier::ext_equal]
pub struct GuiModel {
    pub input: Option<Seq<char>>,
    pub output_dir: Option<Seq<char>>,
    pub density: u32,
    pub scale: u32,
    pub export_ply: bool,
    pub export_splat: bool,
    pub status: Seq<char>,
    pub error: Option<Seq<char>>,
    pub last_ms: Option<u32>,
    pub last_count: Option<usize>,
    pub last_triangles: Option<usize>,
    pub gaussians: Option<Seq<Gaussian>>,
}

impl View for GuiState {
    type V = GuiModel;

    open spec fn view(&self) -> GuiModel {
        GuiModel {
            input: option_string_view(self.input),
            output_dir: option_string_view(self.output_dir),
            density: self.density,
            scale: self.scale,
            export_ply: self.export_ply,
            export_splat: self.export_splat,
            status: self.status@,
            error: option_string_view(self.error),
            last_ms: self.last_ms,
            last_count: self.last_count,
            last_triangles: self.last_triangles,
            gaussians: option_gaussians_view(self.gaussians),
        }
    }
}

/// The events that change the front end's state.
pub enum GuiEvent {
    /// The window came up; `gpu_error` is the GPU set-up's failure, if any.
    Resumed { gpu_error: Option<Seq<char>> },
    /// An input file, shown as `shown`, was chosen.
    InputSelected { shown: Seq<char> },
    /// An output folder, shown as `shown`, was chosen.
    OutputDirSelected { shown: Seq<char> },
    /// The user changed the sliders or the format check boxes.
    OptionsChanged { density: u32, scale: u32, export_ply: bool, export_splat: bool },
    /// A conversion of a mesh with `index_count` indices produced
    /// `gaussians` in `elapsed_ms` milliseconds (an `f32` bit pattern).
    ConversionSucceeded { gaussians: Seq<Gaussian>, index_count: usize, elapsed_ms: u32 },
    /// A conversion failed with `error`.
    ConversionFailed { error: Seq<char> },
    /// An export succeeded with status `message`.
    Exported { message: Seq<char> },
    /// An export failed with `error`.
    ExportFailed { error: Seq<char> },
    /// An export was asked for with nothing converted.
    NothingToExport,
    /// Drawing a frame failed with `error`.
    RenderFailed { error: Seq<char> },
}

/// The status line after a failed GPU initialisation.
pub open spec fn spec_status_init_failed() -> Seq<char> {
    "Failed to init GPU"@
}

/// The status line once the front end is ready.
pub open spec fn spec_status_ready() -> Seq<char> {
    "Ready. Drop a .glb/.gltf or click Open…"@
}

/// The state before the window exists: nothing chosen, zero density and
/// scale, no format selected, empty status, no conversion.
pub open spec fn initial_model() -> GuiModel {
    GuiModel {
        input: None,
        output_dir: None,
        density: 0,
        scale: 0,
        export_ply: false,
        export_splat: false,
        status: Seq::empty(),
        error: None,
        last_ms: None,
        last_count: None,
        last_triangles: None,
        gaussians: None,
    }
}

/// The state after event `e` in state `s`.
pub open spec fn step(s: GuiModel, e: GuiEvent) -> GuiModel {
    match e {
        GuiEvent::Resumed { gpu_error } => GuiModel {
            density: if spec_f32_is_zero(s.density) {
                DEFAULT_DENSITY
            } else {
                s.density
            },
            scale: if spec_f32_is_zero(s.scale) {
                DEFAULT_SCALE
            } else {
                s.scale
            },
            export_ply: true,
            export_splat: true,
            error: match gpu_error {
                Some(err) => Some(err),
                None => s.error,
            },
            status: match gpu_error {
                Some(_) => spec_status_init_failed(),
                None => spec_status_ready(),
            },
            ..s
        },
        GuiEvent::InputSelected { shown } => GuiModel {
            input: Some(shown),
            error: None,
            status: "Selected: "@ + shown,
            ..s
        },
        GuiEvent::OutputDirSelected { shown } => GuiModel {
            output_dir: Some(shown),
            status: "Output dir: "@ + shown,
            ..s
        },
        GuiEvent::OptionsChanged { density, scale, export_ply, export_splat } => GuiModel {
            density,
            scale,
            export_ply,
            export_splat,
            ..s
        },
        GuiEvent::ConversionSucceeded { gaussians, index_count, elapsed_ms } => GuiModel {
            last_ms: Some(elapsed_ms),
            last_count: Some(gaussians.len() as usize),
            last_triangles: Some((index_count / 3) as usize),
            gaussians: Some(gaussians),
            status: "Done."@,
            error: None,
            ..s
        },
        GuiEvent::ConversionFailed { error } => GuiModel {
            error: Some(error),
            status: "Conversion failed"@,
            ..s
        },
        GuiEvent::Exported { message } => GuiModel { status: message, error: None, ..s },
        GuiEvent::ExportFailed { error } => GuiModel {
            error: Some(error),
            status: "Export failed"@,
            ..s
        },
        GuiEvent::NothingToExport => GuiModel {
            error: Some("Nothing to export (convert first)"@),
            status: "Export failed"@,
            ..s
        },
        GuiEvent::RenderFailed { error } => GuiModel {
            error: Some(error),
            status: "Render error"@,
            ..s
        },
    }
}

/// The state after the events `es`, in order, from the initial state.
pub open spec fn run_events(es: Seq<GuiEvent>) -> GuiModel
    decreases es.len(),
{
    if es.len() == 0 {
        initial_model()
    } else {
        step(run_events(es.drop_last()), es.last())
    }
}

/// The statistics shown belong to the Gaussians held: the count is their
/// number, and a time and a triangle count are shown exactly when Gaussians
/// are held.
pub open spec fn stats_match_gaussians(s: GuiModel) -> bool {
    &&& s.last_ms is Some <==> s.gaussians is Some
    &&& s.last_triangles is Some <==> s.gaussians is Some
    &&& match s.gaussians {
        Some(g) => s.last_count == Some(g.len() as usize),
        None => s.last_count is None,
    }
}

/// Whatever events have happened, the shown Gaussian count, conversion time
/// and triangle count stay in step with the Gaussians held.
pub proof fn law_stats_follow_gaussians(es: Seq<GuiEvent>)
    ensures
        stats_match_gaussians(run_events(es)),
    decreases es.len(),
{
    if es.len() > 0 {
        law_stats_follow_gaussians(es.drop_last());
    }
}

/// Export becomes available only through a successful conversion: whenever
/// Gaussians are held, some earlier event was a successful conversion.
pub proof fn law_export_needs_successful_conversion(es: Seq<GuiEvent>)
    ensures
        run_events(es).gaussians is Some ==> exists|i: int|
            0 <= i < es.len() && #[trigger] es[i] is ConversionSucceeded,
    decreases es.len(),
{
    if es.len() > 0 {
        law_export_needs_successful_conversion(es.drop_last());
        if run_events(es).gaussians is Some {
            if es.last() is ConversionSucceeded {
                assert(es[es.len() - 1] is ConversionSucceeded);
            } else {
                let i = choose|i: int|
                    0 <= i < es.drop_last().len() && #[trigger] es.drop_last()[i] is ConversionSucceeded;
                assert(es[i] is ConversionSucceeded);
            }
        }
    }
}

/// Conversion becomes available only through choosing an input: whenever an
/// input is held, some earlier event chose one.
pub proof fn law_convert_needs_input(es: Seq<GuiEvent>)
    ensures
        run_events(es).input is Some ==> exists|i: int|
            0 <= i < es.len() && #[trigger] es[i] is InputSelected,
    decreases es.len(),
{
    if es.len() > 0 {
        law_convert_needs_input(es.drop_last());
        if run_events(es).input is Some {
            if es.last() is InputSelected {
                assert(es[es.len() - 1] is InputSelected);
            } else {
                let i = choose|i: int|
                    0 <= i < es.drop_last().len() && #[trigger] es.drop_last()[i] is InputSelected;
                assert(es[i] is InputSelected);
            }
        }
    }
}

/// Resuming keeps a chosen density and scale: a value that is not an `f32`
/// zero (bit pattern `0x0000_0000` or `0x8000_0000`) stays as it was, and
/// only a zero one takes its default. Resuming selects both formats and
/// leaves the chosen paths, the statistics and the Gaussians untouched.
pub proof fn law_resume_keeps_chosen_options(s: GuiModel, gpu_error: Option<Seq<char>>)
    ensures
        ({
            let t = step(s, GuiEvent::Resumed { gpu_error });
            &&& (s.density != 0 && s.density != 0x8000_0000) ==> t.density == s.density
            &&& (s.density == 0 || s.density == 0x8000_0000) ==> t.density == 0x3f80_0000
            &&& (s.scale != 0 && s.scale != 0x8000_0000) ==> t.scale == s.scale
            &&& (s.scale == 0 || s.scale == 0x8000_0000) ==> t.scale == 0x3f26_6666
            &&& t.export_ply && t.export_splat
            &&& t.input == s.input
            &&& t.output_dir == s.output_dir
            &&& t.last_ms == s.last_ms
            &&& t.last_count == s.last_count
            &&& t.last_triangles == s.last_triangles
            &&& t.gaussians == s.gaussians
        }),
{
}

/// What each event does to the state: the fields it names change as
/// follows, and nothing else changes except the status line and error of
/// a resume (see `law_resume_keeps_chosen_options`).
pub proof fn law_event_effects(s: GuiModel, e: GuiEvent)
    ensures
        ({
            let t = step(s, e);
            match e {
                GuiEvent::Resumed { gpu_error } => {
                    &&& gpu_error matches Some(err) ==> t.error == Some(err) && t.status
                        == "Failed to init GPU"@
                    &&& gpu_error is None ==> t.error == s.error && t.status
                        == "Ready. Drop a .glb/.gltf or click Open…"@
                },
                GuiEvent::InputSelected { shown } => {
                    &&& t.input == Some(shown)
                    &&& t.error is None
                    &&& t.status == "Selected: "@ + shown
                    &&& t.output_dir == s.output_dir && t.gaussians == s.gaussians
                    &&& t.density == s.density && t.scale == s.scale
                },
                GuiEvent::OutputDirSelected { shown } => {
                    &&& t.output_dir == Some(shown)
                    &&& t.status == "Output dir: "@ + shown
                    &&& t.input == s.input && t.error == s.error && t.gaussians == s.gaussians
                },
                GuiEvent::OptionsChanged { density, scale, export_ply, export_splat } => {
                    &&& t.density == density && t.scale == scale
                    &&& t.export_ply == export_ply && t.export_splat == export_splat
                    &&& t.status == s.status && t.error == s.error && t.input == s.input
                    &&& t.gaussians == s.gaussians
                },
                GuiEvent::ConversionSucceeded { gaussians, index_count, elapsed_ms } => {
                    &&& t.gaussians == Some(gaussians)
                    &&& t.last_count == Some(gaussians.len() as usize)
                    &&& t.last_triangles == Some((index_count / 3) as usize)
                    &&& t.last_ms == Some(elapsed_ms)
                    &&& t.status == "Done."@ && t.error is None
                    &&& t.input == s.input && t.density == s.density && t.scale == s.scale
                },
                GuiEvent::ConversionFailed { error } => {
                    &&& t.error == Some(error) && t.status == "Conversion failed"@
                    &&& t.gaussians == s.gaussians && t.last_count == s.last_count
                    &&& t.last_ms == s.last_ms && t.last_triangles == s.last_triangles
                },
                GuiEvent::Exported { message } => {
                    &&& t.status == message && t.error is None
                    &&& t.gaussians == s.gaussians
                },
                GuiEvent::ExportFailed { error } => {
                    &&& t.error == Some(error) && t.status == "Export failed"@
                    &&& t.gaussians == s.gaussians
                },
                GuiEvent::NothingToExport => {
                    &&& t.error == Some("Nothing to export (convert first)"@)
                    &&& t.status == "Export failed"@
                    &&& t.gaussians == s.gaussians
                },
                GuiEvent::RenderFailed { error } => {
                    &&& t.error == Some(error) && t.status == "Render error"@
                    &&& t.gaussians == s.gaussians && t.input == s.input
                },
            }
        }),
{
}

impl GuiState {
    /// The initial state (see `initial_model`).
    pub fn new() -> (s: GuiState)
        ensures
            s@ == initial_model(),
    {
        GuiState {
            input: None,
            output_dir: None,
            density: 0,
            scale: 0,
            export_ply: false,
            export_splat: false,
            status: String::new(),
            error: None,
            last_ms: None,
            last_count: None,
            last_triangles: None,
            gaussians: None,
        }
    }

    /// Whether a conversion can be started: an input is chosen.
    pub fn can_convert(&self) -> (can: bool)
        ensures
            can == self@.input is Some,
    {
        self.input.is_some()
    }

    /// Whether an export can be started: a conversion has produced Gaussians.
    pub fn can_export(&self) -> (can: bool)
        ensures
            can == self@.gaussians is Some,
    {
        self.gaussians.is_some()
    }

    /// The window has come up; `gpu_error` is the failure of the GPU set-up,
    /// if any. A zero density or scale takes its default, both formats are
    /// selected, and the status reports readiness or the failure.
    pub fn on_resumed(&mut self, gpu_error: Option<String>)
        ensures
            final(self)@ == step(
                old(self)@,
                GuiEvent::Resumed { gpu_error: option_string_view(gpu_error) },
            ),
    {
        if f32_is_zero(self.density) {
            self.density = DEFAULT_DENSITY;
        }
        if f32_is_zero(self.scale) {
            self.scale = DEFAULT_SCALE;
        }
        self.export_ply = true;
        self.export_splat = true;
        match gpu_error {
            Some(e) => {
                self.error = Some(e);
                self.status = String::from_str("Failed to init GPU");
            },
            None => {
                self.status = String::from_str("Ready. Drop a .glb/.gltf or click Open…");
            },
        }
        assert(self@ =~= step(
            old(self)@,
            GuiEvent::Resumed { gpu_error: option_string_view(gpu_error) },
        ));
    }

    /// An input file, shown as `shown`, was chosen (dialog or drop): it
    /// becomes the input, the error clears and the status names it.
    pub fn on_input_selected(&mut self, shown: String)
        ensures
            final(self)@ == step(old(self)@, GuiEvent::InputSelected { shown: shown@ }),
    {
        let mut status = String::from_str("Selected: ");
        status.append(shown.as_str());
        let ghost shown_view = shown@;
        self.input = Some(shown);
        self.error = None;
        self.status = status;
        assert(self@ =~= step(old(self)@, GuiEvent::InputSelected { shown: shown_view }));
    }

    /// An output folder, shown as `shown`, was chosen: it becomes the output
    /// folder and the status names it.
    pub fn on_output_dir_selected(&mut self, shown: String)
        ensures
            final(self)@ == step(old(self)@, GuiEvent::OutputDirSelected { shown: shown@ }),
    {
        let mut status = String::from_str("Output dir: ");
        status.append(shown.as_str());
        let ghost shown_view = shown@;
        self.output_dir = Some(shown);
        self.status = status;
        assert(self@ =~= step(old(self)@, GuiEvent::OutputDirSelected { shown: shown_view }));
    }

    /// The user set the sliders and the format check boxes.
    pub fn set_options(&mut self, density: u32, scale: u32, export_ply: bool, export_splat: bool)
        ensures
            final(self)@ == step(
                old(self)@,
                GuiEvent::OptionsChanged { density, scale, export_ply, export_splat },
            ),
    {
        self.density = density;
        self.scale = scale;
        self.export_ply = export_ply;
        self.export_splat = export_splat;
        assert(self@ =~= step(
            old(self)@,
            GuiEvent::OptionsChanged { density, scale, export_ply, export_splat },
        ));
    }

    /// A conversion ended: with the Gaussians, the index count of the mesh
    /// and the time it took (an `f32` bit pattern, in milliseconds), or with
    /// an error message.
    pub fn on_conversion_finished(&mut self, outcome: Result<(Vec<Gaussian>, usize, u32), String>)
        ensures
            match outcome {
                Ok((gaussians, index_count, elapsed_ms)) => final(self)@ == step(
                    old(self)@,
                    GuiEvent::ConversionSucceeded {
                        gaussians: gaussians@,
                        index_count,
                        elapsed_ms,
                    },
                ),
                Err(e) => final(self)@ == step(
                    old(self)@,
                    GuiEvent::ConversionFailed { error: e@ },
                ),
            },
    {
        match outcome {
            Ok((gaussians, index_count, elapsed_ms)) => {
                let ghost g = gaussians@;
                self.last_ms = Some(elapsed_ms);
                self.last_count = Some(gaussians.len());
                self.last_triangles = Some(index_count / 3);
                self.gaussians = Some(gaussians);
                self.status = String::from_str("Done.");
                self.error = None;
                assert(self@ =~= step(
                    old(self)@,
                    GuiEvent::ConversionSucceeded { gaussians: g, index_count, elapsed_ms },
                ));
            },
            Err(e) => {
                let ghost ev = e@;
                self.error = Some(e);
                self.status = String::from_str("Conversion failed");
                assert(self@ =~= step(old(self)@, GuiEvent::ConversionFailed { error: ev }));
            },
        }
    }

    /// An export was asked for. `outcome` is `None` when there was nothing to
    /// export, else the status message of the export or its error message.
    pub fn on_export_finished(&mut self, outcome: Option<Result<String, String>>)
        ensures
            match outcome {
                Some(Ok(message)) => final(self)@ == step(
                    old(self)@,
                    GuiEvent::Exported { message: message@ },
                ),
                Some(Err(e)) => final(self)@ == step(
                    old(self)@,
                    GuiEvent::ExportFailed { error: e@ },
                ),
                None => final(self)@ == step(old(self)@, GuiEvent::NothingToExport),
            },
    {
        match outcome {
            Some(Ok(message)) => {
                let ghost mv = message@;
                self.status = message;
                self.error = None;
                assert(self@ =~= step(old(self)@, GuiEvent::Exported { message: mv }));
            },
            Some(Err(e)) => {
                let ghost ev = e@;
                self.error = Some(e);
                self.status = String::from_str("Export failed");
                assert(self@ =~= step(old(self)@, GuiEvent::ExportFailed { error: ev }));
            },
            None => {
                self.error = Some(String::from_str("Nothing to export (convert first)"));
                self.status = String::from_str("Export failed");
                assert(self@ =~= step(old(self)@, GuiEvent::NothingToExport));
            },
        }
    }

    /// Drawing a frame failed with `e`.
    pub fn on_render_failed(&mut self, e: String)
        ensures
            final(self)@ == step(old(self)@, GuiEvent::RenderFailed { error: e@ }),
    {
        let ghost ev = e@;
        self.error = Some(e);
        self.status = String::from_str("Render error");
        assert(self@ =~= step(old(self)@, GuiEvent::RenderFailed { error: ev }));
    }
}

} // verus!
