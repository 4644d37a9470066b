//! Choice of the encoder profile from what the host offers.

use crate::utils::text::{contains_text, occurs_in, str_eq};
use vstd::prelude::*;

verus! {

/// How the encoder is to be invoked.
#[derive(Debug)]
pub struct HwAccelProfile {
    pub encoder: String,
    pub preset: String,
    pub hwaccel: Option<String>,
    pub hwaccel_output_format: Option<String>,
    pub extra_args: Vec<String>,
}

/// A [`HwAccelProfile`] as plain values.
pub struct HwAccelProfileView {
    pub encoder: Seq<char>,
    pub preset: Seq<char>,
    pub hwaccel: Option<Seq<char>>,
    pub hwaccel_output_format: Option<Seq<char>>,
    pub extra_args: Seq<Seq<char>>,
}

impl View for HwAccelProfile {
    type V = HwAccelProfileView;

    open spec fn view(&self) -> HwAccelProfileView {
        HwAccelProfileView {
            encoder: self.encoder@,
            preset: self.preset@,
            hwaccel: self.hwaccel.deep_view(),
            hwaccel_output_format: self.hwaccel_output_format.deep_view(),
            extra_args: self.extra_args.deep_view(),
        }
    }
}

/// The host platforms that the policy tells apart.
#[derive(Debug, Clone, Copy, PartialEq, Eq, Structural)]
pub enum Platform {
    MacOs,
    Windows,
    Other,
}

/// The platform that an operating system name stands for.
pub open spec fn platform_of(os: Seq<char>) -> Platform {
    if os == "macos"@ {
        Platform::MacOs
    } else if os == "windows"@ {
        Platform::Windows
    } else {
        Platform::Other
    }
}

/// Computes [`platform_of`].
pub fn platform_from_name(os: &str) -> (platform: Platform)
    ensures
        platform == platform_of(os@),
{
    if str_eq(os, "macos") {
        Platform::MacOs
    } else if str_eq(os, "windows") {
        Platform::Windows
    } else {
        Platform::Other
    }
}

/// How the run of a probing tool ended.
#[derive(Debug)]
pub enum ToolRun {
    /// The tool was not run, or could not be started.
    NotRun,
    /// The tool ended with a failure.
    Failed,
    /// The tool ended with success and printed this.
    Succeeded(String),
}

/// What became of the probes of the host.
#[derive(Debug)]
pub struct HostProbe {
    /// The run of the NVIDIA management tool.
    pub nvidia_tool: ToolRun,
    /// The run of the encoder toolchain, asked for its encoders.
    pub encoder_toolchain: ToolRun,
}

/// What the probes of a host found. A probe that was not run, that could not
/// be started, or that ended with a failure found nothing.
pub struct HostProbeView {
    /// Whether the NVIDIA management tool ran with success.
    pub nvidia_tool_ran: bool,
    /// What the encoder toolchain printed when asked for its encoders, if it
    /// ran with success.
    pub encoder_listing: Option<Seq<char>>,
}

impl View for HostProbe {
    type V = HostProbeView;

    open spec fn view(&self) -> HostProbeView {
        HostProbeView {
            nvidia_tool_ran: self.nvidia_tool is Succeeded,
            encoder_listing: match self.encoder_toolchain {
                ToolRun::Succeeded(listing) => Some(listing@),
                _ => None,
            },
        }
    }
}

/// Whether the toolchain lists the encoder `name`.
pub open spec fn lists_encoder(probe: HostProbeView, name: Seq<char>) -> bool {
    match probe.encoder_listing {
        Some(listing) => occurs_in(listing, name),
        None => false,
    }
}

/// The software encoder with a fixed quality: what is chosen when nothing
/// better is found.
pub open spec fn software_profile() -> HwAccelProfileView {
    HwAccelProfileView {
        encoder: "libx264"@,
        preset: "fast"@,
        hwaccel: None,
        hwaccel_output_format: None,
        extra_args: seq!["-crf"@, "25"@],
    }
}

/// Apple's hardware encoder.
pub open spec fn videotoolbox_profile() -> HwAccelProfileView {
    HwAccelProfileView {
        encoder: "h264_videotoolbox"@,
        preset: "medium"@,
        hwaccel: None,
        hwaccel_output_format: None,
        extra_args: seq!["-allow_sw"@, "1"@, "-realtime"@, "0"@],
    }
}

/// NVIDIA's hardware encoder.
pub open spec fn nvenc_profile() -> HwAccelProfileView {
    HwAccelProfileView {
        encoder: "h264_nvenc"@,
        preset: "p6"@,
        hwaccel: Some("cuda"@),
        hwaccel_output_format: Some("cuda"@),
        extra_args: seq![],
    }
}

/// Intel's hardware encoder.
pub open spec fn qsv_profile() -> HwAccelProfileView {
    HwAccelProfileView {
        encoder: "h264_qsv"@,
        preset: "medium"@,
        hwaccel: Some("qsv"@),
        hwaccel_output_format: Some("qsv"@),
        extra_args: seq![],
    }
}

/// AMD's hardware encoder.
pub open spec fn amf_profile() -> HwAccelProfileView {
    HwAccelProfileView {
        encoder: "h264_amf"@,
        preset: "speed"@,
        hwaccel: None,
        hwaccel_output_format: None,
        extra_args: seq!["-usage"@, "transcoding"@, "-profile"@, "main"@],
    }
}

/// The policy. On macOS the vendor's encoder if the toolchain lists it. On
/// Windows NVIDIA first (its tool must have run as well), then Intel, then
/// AMD. In every other case the software encoder.
pub open spec fn chosen_profile(platform: Platform, probe: HostProbeView) -> HwAccelProfileView {
    match platform {
        Platform::MacOs => if lists_encoder(probe, "h264_videotoolbox"@) {
            videotoolbox_profile()
        } else {
            software_profile()
        },
        Platform::Windows => if probe.nvidia_tool_ran && lists_encoder(probe, "h264_nvenc"@) {
            nvenc_profile()
        } else if lists_encoder(probe, "h264_qsv"@) {
            qsv_profile()
        } else if lists_encoder(probe, "h264_amf"@) {
            amf_profile()
        } else {
            software_profile()
        },
        Platform::Other => software_profile(),
    }
}

/// Which probes the policy looks at on a platform.
#[derive(Debug, Clone, Copy, PartialEq, Eq, Structural)]
pub struct ProbePlan {
    /// Whether the NVIDIA management tool is to be run.
    pub nvidia_tool: bool,
    /// Whether the encoder toolchain is to be asked for its encoders.
    pub encoder_listing: bool,
}

/// The probes that matter on a platform: the listing of encoders on macOS,
/// the listing and the NVIDIA tool on Windows, nothing anywhere else.
pub open spec fn probes_needed(platform: Platform) -> ProbePlan {
    match platform {
        Platform::MacOs => ProbePlan { nvidia_tool: false, encoder_listing: true },
        Platform::Windows => ProbePlan { nvidia_tool: true, encoder_listing: true },
        Platform::Other => ProbePlan { nvidia_tool: false, encoder_listing: false },
    }
}

/// A probe as the policy sees it under a plan: what was not asked for counts
/// as not found.
pub open spec fn masked(probe: HostProbeView, plan: ProbePlan) -> HostProbeView {
    HostProbeView {
        nvidia_tool_ran: plan.nvidia_tool && probe.nvidia_tool_ran,
        encoder_listing: if plan.encoder_listing {
            probe.encoder_listing
        } else {
            None
        },
    }
}

/// The policy looks at no probe that [`probes_needed`] leaves out: a host
/// that skips those probes gets the same profile.
pub proof fn lemma_unneeded_probes_do_not_matter(platform: Platform, probe: HostProbeView)
    ensures
        chosen_profile(platform, masked(probe, probes_needed(platform))) == chosen_profile(
            platform,
            probe,
        ),
{
}

/// Whatever the probes found, the choice is one of the five profiles, and it
/// is the software encoder where the toolchain could not be asked.
pub proof fn lemma_profile_is_always_chosen(platform: Platform, probe: HostProbeView)
    ensures
        chosen_profile(platform, probe) == software_profile() || chosen_profile(platform, probe)
            == videotoolbox_profile() || chosen_profile(platform, probe) == nvenc_profile()
            || chosen_profile(platform, probe) == qsv_profile() || chosen_profile(platform, probe)
            == amf_profile(),
        probe.encoder_listing is None ==> chosen_profile(platform, probe) == software_profile(),
{
}

/// The probes to run on a platform: [`probes_needed`].
pub fn probes_for(platform: Platform) -> (plan: ProbePlan)
    ensures
        plan == probes_needed(platform),
{
    match platform {
        Platform::MacOs => ProbePlan { nvidia_tool: false, encoder_listing: true },
        Platform::Windows => ProbePlan { nvidia_tool: true, encoder_listing: true },
        Platform::Other => ProbePlan { nvidia_tool: false, encoder_listing: false },
    }
}

fn text(s: &str) -> (owned: String)
    ensures
        owned@ == s@,
{
    s.to_owned()
}

fn listed(probe: &HostProbe, name: &str) -> (yes: bool)
    ensures
        yes == lists_encoder(probe@, name@),
{
    match &probe.encoder_toolchain {
        ToolRun::Succeeded(listing) => contains_text(listing.as_str(), name),
        _ => false,
    }
}

fn profile_of(
    encoder: &str,
    preset: &str,
    hwaccel: Option<&str>,
    extra_args: Vec<String>,
) -> (profile: HwAccelProfile)
    ensures
        profile@ == (HwAccelProfileView {
            encoder: encoder@,
            preset: preset@,
            hwaccel: hwaccel.deep_view(),
            hwaccel_output_format: hwaccel.deep_view(),
            extra_args: extra_args.deep_view(),
        }),
{
    let (hwaccel, hwaccel_output_format) = match hwaccel {
        Some(name) => (Some(text(name)), Some(text(name))),
        None => (None, None),
    };
    HwAccelProfile { encoder: text(encoder), preset: text(preset), hwaccel, hwaccel_output_format, extra_args }
}

fn args2(a: &str, b: &str) -> (args: Vec<String>)
    ensures
        args.deep_view() == seq![a@, b@],
{
    let mut args: Vec<String> = Vec::new();
    args.push(text(a));
    args.push(text(b));
    assert(args.deep_view() =~= seq![a@, b@]);
    args
}

fn args4(a: &str, b: &str, c: &str, d: &str) -> (args: Vec<String>)
    ensures
        args.deep_view() == seq![a@, b@, c@, d@],
{
    let mut args: Vec<String> = Vec::new();
    args.push(text(a));
    args.push(text(b));
    args.push(text(c));
    args.push(text(d));
    assert(args.deep_view() =~= seq![a@, b@, c@, d@]);
    args
}

fn no_args() -> (args: Vec<String>)
    ensures
        args.deep_view() == Seq::<Seq<char>>::empty(),
{
    let args: Vec<String> = Vec::new();
    assert(args.deep_view() =~= Seq::<Seq<char>>::empty());
    args
}

/// The software fallback, [`software_profile`].
pub fn cpu_profile() -> (profile: HwAccelProfile)
    ensures
        profile@ == software_profile(),
{
    profile_of("libx264", "fast", None, args2("-crf", "25"))
}

/// Chooses the profile for a host: [`chosen_profile`]. It never fails: with
/// nothing detected the answer is the software encoder.
pub fn choose_profile(platform: Platform, probe: &HostProbe) -> (profile: HwAccelProfile)
    ensures
        profile@ == chosen_profile(platform, probe@),
{
    match platform {
        Platform::MacOs => {
            if listed(probe, "h264_videotoolbox") {
                profile_of(
                    "h264_videotoolbox",
                    "medium",
                    None,
                    args4("-allow_sw", "1", "-realtime", "0"),
                )
            } else {
                cpu_profile()
            }
        },
        Platform::Windows => {
            let nvidia_tool_ran = match &probe.nvidia_tool {
                ToolRun::Succeeded(_) => true,
                _ => false,
            };
            if nvidia_tool_ran && listed(probe, "h264_nvenc") {
                profile_of("h264_nvenc", "p6", Some("cuda"), no_args())
            } else if listed(probe, "h264_qsv") {
                profile_of("h264_qsv", "medium", Some("qsv"), no_args())
            } else if listed(probe, "h264_amf") {
                profile_of(
                    "h264_amf",
                    "speed",
                    None,
                    args4("-usage", "transcoding", "-profile", "main"),
                )
            } else {
                cpu_profile()
            }
        },
        Platform::Other => cpu_profile(),
    }
}

} // verus!
