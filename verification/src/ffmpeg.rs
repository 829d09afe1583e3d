//! Hardware acceleration choices and the ffmpeg arguments that follow from
//! them.
use crate::text::{
    concat2, concat3, has_text, lower, occurs_at, opt_str, opt_text, push_two, same_text, texts,
    to_lower, trim, trimmed,
};
use vstd::prelude::*;

verus! {

/// The render node used where none is configured.
pub const DEFAULT_VAAPI_DEVICE: &'static str = "/dev/dri/renderD128";

/// The hardware that ffmpeg decodes and encodes with.
#[derive(Debug, PartialEq, Eq)]
pub enum FfmpegHardwareAcceleration {
    Software,
    Auto,
    Nvenc,
    Vaapi { device: String },
    Qsv,
    Videotoolbox,
}

/// The render node used where none is configured.
pub fn default_vaapi_device() -> (r: String)
    ensures
        r@ == DEFAULT_VAAPI_DEVICE@,
{
    DEFAULT_VAAPI_DEVICE.to_owned()
}

/// The render node that a setting names; an empty or missing setting names the
/// default.
pub open spec fn vaapi_device(setting: Option<Seq<char>>) -> Seq<char> {
    match setting {
        Some(value) if value.len() > 0 => value,
        _ => DEFAULT_VAAPI_DEVICE@,
    }
}

/// The render node that a setting names.
pub fn vaapi_device_from_env(setting: Option<&str>) -> (r: String)
    ensures
        r@ == vaapi_device(opt_str(setting)),
{
    match setting {
        Some(value) => {
            if value.is_empty() {
                default_vaapi_device()
            } else {
                value.to_owned()
            }
        },
        None => default_vaapi_device(),
    }
}

impl Default for FfmpegHardwareAcceleration {
    fn default() -> (r: FfmpegHardwareAcceleration)
        ensures
            r is Software,
    {
        FfmpegHardwareAcceleration::Software
    }
}

impl Clone for FfmpegHardwareAcceleration {
    fn clone(&self) -> (r: FfmpegHardwareAcceleration)
        ensures
            r == *self,
    {
        match self {
            FfmpegHardwareAcceleration::Software => FfmpegHardwareAcceleration::Software,
            FfmpegHardwareAcceleration::Auto => FfmpegHardwareAcceleration::Auto,
            FfmpegHardwareAcceleration::Nvenc => FfmpegHardwareAcceleration::Nvenc,
            FfmpegHardwareAcceleration::Vaapi { device } => FfmpegHardwareAcceleration::Vaapi {
                device: device.clone(),
            },
            FfmpegHardwareAcceleration::Qsv => FfmpegHardwareAcceleration::Qsv,
            FfmpegHardwareAcceleration::Videotoolbox => FfmpegHardwareAcceleration::Videotoolbox,
        }
    }
}

impl FfmpegHardwareAcceleration {
    /// Whether this is the choice that a setting names: a known name in any
    /// case of letters, and software for anything else.
    pub open spec fn is_named(
        self,
        setting: Option<Seq<char>>,
        device_setting: Option<Seq<char>>,
    ) -> bool {
        match setting {
            None => self is Software,
            Some(raw) => {
                let name = lower(trimmed(raw));
                if name == "auto"@ {
                    self is Auto
                } else if name == "nvenc"@ || name == "cuda"@ {
                    self is Nvenc
                } else if name == "vaapi"@ {
                    self matches FfmpegHardwareAcceleration::Vaapi { device } && device@
                        == vaapi_device(device_setting)
                } else if name == "qsv"@ {
                    self is Qsv
                } else if name == "videotoolbox"@ {
                    self is Videotoolbox
                } else {
                    self is Software
                }
            },
        }
    }

    /// The choice that the settings name. `setting` is the acceleration
    /// setting, `device_setting` the one for the render node.
    pub fn from_env(setting: Option<&str>, device_setting: Option<&str>) -> (r: Self)
        ensures
            r.is_named(opt_str(setting), opt_str(device_setting)),
    {
        match setting {
            None => FfmpegHardwareAcceleration::Software,
            Some(raw) => {
                let name: String = to_lower(trim(raw));
                let name: &str = name.as_str();
                if same_text(name, "auto") {
                    FfmpegHardwareAcceleration::Auto
                } else if same_text(name, "nvenc") || same_text(name, "cuda") {
                    FfmpegHardwareAcceleration::Nvenc
                } else if same_text(name, "vaapi") {
                    FfmpegHardwareAcceleration::Vaapi {
                        device: vaapi_device_from_env(device_setting),
                    }
                } else if same_text(name, "qsv") {
                    FfmpegHardwareAcceleration::Qsv
                } else if same_text(name, "videotoolbox") {
                    FfmpegHardwareAcceleration::Videotoolbox
                } else {
                    FfmpegHardwareAcceleration::Software
                }
            },
        }
    }

    /// The name of the H.264 encoder.
    pub open spec fn encoder(self) -> Seq<char> {
        match self {
            FfmpegHardwareAcceleration::Software | FfmpegHardwareAcceleration::Auto => "libx264"@,
            FfmpegHardwareAcceleration::Nvenc => "h264_nvenc"@,
            FfmpegHardwareAcceleration::Vaapi { .. } => "h264_vaapi"@,
            FfmpegHardwareAcceleration::Qsv => "h264_qsv"@,
            FfmpegHardwareAcceleration::Videotoolbox => "h264_videotoolbox"@,
        }
    }

    pub fn h264_encoder(&self) -> (r: &'static str)
        ensures
            r@ == self.encoder(),
    {
        match self {
            FfmpegHardwareAcceleration::Software | FfmpegHardwareAcceleration::Auto => "libx264",
            FfmpegHardwareAcceleration::Nvenc => "h264_nvenc",
            FfmpegHardwareAcceleration::Vaapi { .. } => "h264_vaapi",
            FfmpegHardwareAcceleration::Qsv => "h264_qsv",
            FfmpegHardwareAcceleration::Videotoolbox => "h264_videotoolbox",
        }
    }

    /// The video filter in front of the encoder: the given filter, brought to
    /// and from the memory that the encoder reads.
    pub open spec fn filter(self, base: Option<Seq<char>>) -> Option<Seq<char>> {
        match self {
            FfmpegHardwareAcceleration::Nvenc => match base {
                Some(filter) => Some(
                    "hwdownload,format=nv12,"@ + filter + ",format=nv12,hwupload_cuda"@,
                ),
                None => None,
            },
            FfmpegHardwareAcceleration::Vaapi { .. } => match base {
                Some(filter) => Some(filter + ",format=nv12,hwupload"@),
                None => Some("format=nv12,hwupload"@),
            },
            _ => base,
        }
    }

    pub fn h264_filter(&self, base_filter: Option<&str>) -> (r: Option<String>)
        ensures
            opt_text(r) == self.filter(opt_str(base_filter)),
    {
        match self {
            FfmpegHardwareAcceleration::Nvenc => match base_filter {
                Some(filter) => Some(
                    concat3("hwdownload,format=nv12,", filter, ",format=nv12,hwupload_cuda"),
                ),
                None => None,
            },
            FfmpegHardwareAcceleration::Vaapi { .. } => match base_filter {
                Some(filter) => Some(concat2(filter, ",format=nv12,hwupload")),
                None => Some("format=nv12,hwupload".to_owned()),
            },
            _ => match base_filter {
                Some(filter) => Some(filter.to_owned()),
                None => None,
            },
        }
    }

    /// Whether H.264 is encoded on the CPU.
    pub open spec fn in_software(self) -> bool {
        self is Software || self is Auto
    }

    pub fn uses_software_h264_encoder(&self) -> (r: bool)
        ensures
            r == self.in_software(),
    {
        match self {
            FfmpegHardwareAcceleration::Software | FfmpegHardwareAcceleration::Auto => true,
            _ => false,
        }
    }

    /// The arguments before the input that choose the decoder.
    pub open spec fn input_args(self) -> Seq<Seq<char>> {
        match self {
            FfmpegHardwareAcceleration::Software => seq![],
            FfmpegHardwareAcceleration::Auto => seq!["-hwaccel"@, "auto"@],
            FfmpegHardwareAcceleration::Nvenc => seq!["-hwaccel"@, "cuda"@],
            FfmpegHardwareAcceleration::Vaapi { device } => seq!["-vaapi_device"@, device@]
                + seq!["-hwaccel"@, "vaapi"@],
            FfmpegHardwareAcceleration::Qsv => seq!["-hwaccel"@, "qsv"@],
            FfmpegHardwareAcceleration::Videotoolbox => seq!["-hwaccel"@, "videotoolbox"@],
        }
    }

    /// The same, with decoded frames kept in the hardware's memory.
    pub open spec fn input_args_with_hw_frames(self) -> Seq<Seq<char>> {
        match self {
            FfmpegHardwareAcceleration::Nvenc => seq!["-hwaccel"@, "cuda"@] + seq![
                "-hwaccel_output_format"@,
                "cuda"@,
            ],
            _ => self.input_args(),
        }
    }

    /// The software encoder is the one that needs no hardware.
    pub proof fn law_software_encoder(self)
        ensures
            self.in_software() <==> self.encoder() == "libx264"@,
    {
        reveal_strlit("libx264");
        reveal_strlit("h264_nvenc");
        reveal_strlit("h264_vaapi");
        reveal_strlit("h264_qsv");
        reveal_strlit("h264_videotoolbox");
        assert("libx264"@[0] == 'l');
        assert("h264_nvenc"@[0] == 'h');
        assert("h264_vaapi"@[0] == 'h');
        assert("h264_qsv"@[0] == 'h');
        assert("h264_videotoolbox"@[0] == 'h');
    }
}

/// Appends the arguments that choose the decoder.
pub fn apply_input_acceleration(command: &mut Vec<String>, hw_accel: &FfmpegHardwareAcceleration)
    ensures
        texts(final(command)@) == texts(old(command)@) + hw_accel.input_args(),
{
    match hw_accel {
        FfmpegHardwareAcceleration::Software => {
            assert(texts(command@) =~= texts(old(command)@) + hw_accel.input_args());
        },
        FfmpegHardwareAcceleration::Auto => push_two(command, "-hwaccel", "auto"),
        FfmpegHardwareAcceleration::Nvenc => push_two(command, "-hwaccel", "cuda"),
        FfmpegHardwareAcceleration::Vaapi { device } => {
            push_two(command, "-vaapi_device", device.as_str());
            push_two(command, "-hwaccel", "vaapi");
            assert(texts(command@) =~= texts(old(command)@) + hw_accel.input_args());
        },
        FfmpegHardwareAcceleration::Qsv => push_two(command, "-hwaccel", "qsv"),
        FfmpegHardwareAcceleration::Videotoolbox => push_two(command, "-hwaccel", "videotoolbox"),
    }
}

/// Appends the arguments that choose the decoder and keep its frames in the
/// hardware's memory.
pub fn apply_input_acceleration_with_hw_frames(
    command: &mut Vec<String>,
    hw_accel: &FfmpegHardwareAcceleration,
)
    ensures
        texts(final(command)@) == texts(old(command)@) + hw_accel.input_args_with_hw_frames(),
{
    match hw_accel {
        FfmpegHardwareAcceleration::Nvenc => {
            push_two(command, "-hwaccel", "cuda");
            push_two(command, "-hwaccel_output_format", "cuda");
            assert(texts(command@) =~= texts(old(command)@) + hw_accel.input_args_with_hw_frames());
        },
        _ => apply_input_acceleration(command, hw_accel),
    }
}

/// A filter that is given is always applied, wherever the frames are; none is made up
/// where none is given, except the upload that VAAPI encoders need.
pub proof fn law_given_filters_are_applied(
    hw_accel: FfmpegHardwareAcceleration,
    filter: Seq<char>,
)
    ensures
        hw_accel.filter(Some(filter)) matches Some(text) && has_text(text, filter),
        hw_accel is Vaapi <==> hw_accel.filter(None) is Some,
        hw_accel is Software || hw_accel is Auto || hw_accel is Qsv || hw_accel is Videotoolbox
            ==> hw_accel.filter(Some(filter)) == Some(filter),
        hw_accel is Vaapi ==> (hw_accel.filter(Some(filter)) matches Some(text)
            && "hwupload"@.is_suffix_of(text)),
        hw_accel is Nvenc ==> (hw_accel.filter(Some(filter)) matches Some(text)
            && "hwdownload"@.is_prefix_of(text) && "hwupload_cuda"@.is_suffix_of(text)),
{
    let text = hw_accel.filter(Some(filter))->0;
    let before = if hw_accel is Nvenc {
        "hwdownload,format=nv12,"@
    } else {
        Seq::<char>::empty()
    };
    let n = filter.len() as int;
    assert(text.subrange(before.len() as int, before.len() + n) =~= filter);
    assert(occurs_at(text, filter, before.len() as int));
    reveal_strlit("hwupload");
    reveal_strlit("hwdownload");
    reveal_strlit("hwupload_cuda");
    reveal_strlit(",format=nv12,hwupload");
    reveal_strlit("hwdownload,format=nv12,");
    reveal_strlit(",format=nv12,hwupload_cuda");
    if hw_accel is Vaapi {
        assert("hwupload"@ =~= text.subrange(text.len() - 8, text.len() as int));
    }
    if hw_accel is Nvenc {
        assert("hwupload_cuda"@ =~= text.subrange(text.len() - 13, text.len() as int));
        assert("hwdownload"@ =~= text.subrange(0, 10));
    }
}

/// Each hardware has its own H.264 encoder and its own decoder option; the CPU needs
/// no option, and the automatic choice encodes on the CPU.
pub proof fn law_hardware_has_its_encoder(hw_accel: FfmpegHardwareAcceleration)
    ensures
        hw_accel is Software || hw_accel is Auto <==> hw_accel.in_software(),
        hw_accel.in_software() ==> hw_accel.encoder() == "libx264"@,
        hw_accel is Nvenc ==> hw_accel.encoder() == "h264_nvenc"@ && hw_accel.input_args()[1]
            == "cuda"@,
        hw_accel is Vaapi ==> hw_accel.encoder() == "h264_vaapi"@ && hw_accel.input_args()[3]
            == "vaapi"@,
        hw_accel is Qsv ==> hw_accel.encoder() == "h264_qsv"@ && hw_accel.input_args()[1] == "qsv"@,
        hw_accel is Videotoolbox ==> hw_accel.encoder() == "h264_videotoolbox"@
            && hw_accel.input_args()[1] == "videotoolbox"@,
        hw_accel is Auto ==> hw_accel.input_args() == seq!["-hwaccel"@, "auto"@],
        hw_accel is Software ==> hw_accel.input_args().len() == 0,
        hw_accel matches FfmpegHardwareAcceleration::Vaapi { device } ==> hw_accel.input_args()[0]
            == "-vaapi_device"@ && hw_accel.input_args()[1] == device@,
        hw_accel is Nvenc || hw_accel is Qsv || hw_accel is Videotoolbox
            ==> hw_accel.input_args()[0] == "-hwaccel"@,
{
}

/// A setting names the hardware in any case of letters and with white space round it.
/// What it does not name is done on the CPU, and a VAAPI device that is not named is
/// the default one.
pub proof fn law_setting_names_the_hardware(
    hw_accel: FfmpegHardwareAcceleration,
    raw: Seq<char>,
    device: Option<Seq<char>>,
)
    requires
        hw_accel.is_named(Some(raw), device),
    ensures
        ({
            let name = lower(trimmed(raw));
            &&& hw_accel is Auto <==> name == "auto"@
            &&& hw_accel is Nvenc <==> name == "nvenc"@ || name == "cuda"@
            &&& hw_accel is Vaapi <==> name == "vaapi"@
            &&& hw_accel is Qsv <==> name == "qsv"@
            &&& hw_accel is Videotoolbox <==> name == "videotoolbox"@
        }),
        hw_accel matches FfmpegHardwareAcceleration::Vaapi { device: path } ==> path@ == (
        if device is Some && device->0.len() > 0 {
            device->0
        } else {
            "/dev/dri/renderD128"@
        }),
{
    reveal_strlit("auto");
    reveal_strlit("nvenc");
    reveal_strlit("cuda");
    reveal_strlit("vaapi");
    reveal_strlit("qsv");
    reveal_strlit("videotoolbox");
    assert("auto"@[0] == 'a' && "nvenc"@[0] == 'n' && "cuda"@[0] == 'c' && "vaapi"@[1] == 'a');
    assert("vaapi"@[0] == 'v' && "qsv"@[0] == 'q' && "videotoolbox"@[1] == 'i');
    assert("videotoolbox"@[0] == 'v');
}

} // verus!
