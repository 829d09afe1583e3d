//! The settings of the server, and what its parts are started with.
use crate::ffmpeg::{default_vaapi_device, FfmpegHardwareAcceleration, DEFAULT_VAAPI_DEVICE};
use crate::library::config::{
    are_roots_of, at_least_one, at_least_one_worker, default_settings, given_paths, LibraryConfig,
    LibrarySettings,
};
use crate::origin::{is_header_value, origin_message, parse_frontend_origin};
use crate::persistence::PersistenceError;
use crate::probes::ProbeConfig;
use crate::stream_copies::jobs::StreamCopyConfig;
use crate::text::{as_opt_str, opt_str, opt_text, texts};
use crate::thumbnails::ThumbnailConfig;
use vstd::prelude::*;
use vstd::utf8::encode_utf8;

verus! {

/// How many events of a room a slow client may lag behind.
pub const ROOM_EVENT_BUFFER: usize = 64;

/// How long a room without clients is kept, in seconds, so that a reload or a
/// dropped network does not end a session.
pub const DEFAULT_EMPTY_ROOM_GRACE_SECONDS: u64 = 120;

pub const DEFAULT_API_ADDR: &'static str = "127.0.0.1:3001";

pub const DEFAULT_DATABASE_PATH: &'static str = "stax.db";

pub const DEFAULT_LOG_FILTER: &'static str = "stax_backend=debug,tower_http=info";

/// The settings of a running service.
#[derive(Debug)]
pub struct RuntimeConfig {
    pub database_path: String,
    pub library: LibraryConfig,
    pub stream_copy_workers: usize,
    pub thumbnail_workers: usize,
    pub frontend_origin: Option<String>,
}

impl Default for RuntimeConfig {
    fn default() -> (r: RuntimeConfig)
        ensures
            r.database_path@ == DEFAULT_DATABASE_PATH@,
            r.library@ == default_settings(seq![]),
            r.stream_copy_workers == 1,
            r.thumbnail_workers == 2,
            r.frontend_origin is None,
    {
        RuntimeConfig {
            database_path: DEFAULT_DATABASE_PATH.to_owned(),
            library: LibraryConfig::default(),
            stream_copy_workers: 1,
            thumbnail_workers: 2,
            frontend_origin: None,
        }
    }
}

/// The settings of a server.
#[derive(Debug)]
pub struct ServerConfig {
    pub api_addr: String,
    pub runtime: RuntimeConfig,
    pub log_filter: String,
}

impl Default for ServerConfig {
    fn default() -> (r: ServerConfig)
        ensures
            r.api_addr@ == DEFAULT_API_ADDR@,
            r.log_filter@ == DEFAULT_LOG_FILTER@,
            r.runtime.database_path@ == DEFAULT_DATABASE_PATH@,
            r.runtime.library@ == default_settings(seq![]),
            r.runtime.stream_copy_workers == 1,
            r.runtime.thumbnail_workers == 2,
            r.runtime.frontend_origin is None,
    {
        ServerConfig {
            api_addr: DEFAULT_API_ADDR.to_owned(),
            runtime: RuntimeConfig::default(),
            log_filter: DEFAULT_LOG_FILTER.to_owned(),
        }
    }
}

/// The choice of hardware on the command line.
#[derive(Debug, Clone, Copy, PartialEq, Eq, Structural)]
pub enum HwAccelFlag {
    Software,
    Auto,
    Nvenc,
    Vaapi,
    Qsv,
    Videotoolbox,
}

/// The command line. `library_roots` are absolute.
#[derive(Debug)]
pub struct CommandLine {
    pub api_addr: String,
    pub database_path: String,
    pub library_roots: Vec<String>,
    pub frontend_origin: Option<String>,
    pub log_filter: String,
    pub ffprobe_bin: Option<String>,
    pub no_ffprobe: bool,
    pub ffmpeg_bin: Option<String>,
    pub no_ffmpeg: bool,
    pub hw_accel: HwAccelFlag,
    pub vaapi_device: Option<String>,
    pub thumbnail_dir: Option<String>,
    pub no_thumbnail_cache: bool,
    pub stream_copy_dir: Option<String>,
    pub no_stream_copy_cache: bool,
    pub probe_workers: usize,
    pub walk_workers: usize,
    pub thumbnail_workers: usize,
    pub stream_copy_workers: usize,
}

/// What a pair of options says of something that has a default: switched off,
/// named, or left at the default.
pub open spec fn chosen(
    off: bool,
    named: Option<String>,
    default: Option<Seq<char>>,
) -> Option<Seq<char>> {
    if off {
        None
    } else if named is Some {
        opt_text(named)
    } else {
        default
    }
}

/// Whether `accel` is the hardware that the command line chooses.
pub open spec fn is_chosen_accel(
    accel: FfmpegHardwareAcceleration,
    flag: HwAccelFlag,
    device: Option<String>,
) -> bool {
    match flag {
        HwAccelFlag::Software => accel is Software,
        HwAccelFlag::Auto => accel is Auto,
        HwAccelFlag::Nvenc => accel is Nvenc,
        HwAccelFlag::Vaapi => accel matches FfmpegHardwareAcceleration::Vaapi { device: used }
            && used@ == (match device {
            Some(path) => path@,
            None => DEFAULT_VAAPI_DEVICE@,
        }),
        HwAccelFlag::Qsv => accel is Qsv,
        HwAccelFlag::Videotoolbox => accel is Videotoolbox,
    }
}

/// The hardware that the command line chooses.
pub fn chosen_accel(flag: HwAccelFlag, vaapi_device: Option<String>) -> (r: FfmpegHardwareAcceleration)
    ensures
        is_chosen_accel(r, flag, vaapi_device),
{
    match flag {
        HwAccelFlag::Software => FfmpegHardwareAcceleration::Software,
        HwAccelFlag::Auto => FfmpegHardwareAcceleration::Auto,
        HwAccelFlag::Nvenc => FfmpegHardwareAcceleration::Nvenc,
        HwAccelFlag::Vaapi => FfmpegHardwareAcceleration::Vaapi {
            device: match vaapi_device {
                Some(path) => path,
                None => default_vaapi_device(),
            },
        },
        HwAccelFlag::Qsv => FfmpegHardwareAcceleration::Qsv,
        HwAccelFlag::Videotoolbox => FfmpegHardwareAcceleration::Videotoolbox,
    }
}

/// Whether `settings` are what the command line says of the library.
pub open spec fn are_chosen_settings(settings: LibrarySettings, line: CommandLine) -> bool {
    let defaults = default_settings(settings.root_paths);
    &&& are_roots_of(settings.root_paths, given_paths(texts(line.library_roots@)))
    &&& is_chosen_accel(settings.hw_accel, line.hw_accel, line.vaapi_device)
    &&& settings.probe_command == chosen(
        line.no_ffprobe,
        line.ffprobe_bin,
        defaults.probe_command,
    )
    &&& settings.ffmpeg_command == chosen(
        line.no_ffmpeg,
        line.ffmpeg_bin,
        defaults.ffmpeg_command,
    )
    &&& settings.thumbnail_cache_dir == chosen(
        line.no_thumbnail_cache,
        line.thumbnail_dir,
        defaults.thumbnail_cache_dir,
    )
    &&& settings.stream_copy_cache_dir == chosen(
        line.no_stream_copy_cache,
        line.stream_copy_dir,
        defaults.stream_copy_cache_dir,
    )
    &&& settings.probe_workers == at_least_one(line.probe_workers)
    &&& settings.walk_workers == at_least_one(line.walk_workers)
}

/// The settings that a command line asks for.
pub fn into_server_config(line: CommandLine) -> (r: ServerConfig)
    ensures
        r.api_addr == line.api_addr,
        r.log_filter == line.log_filter,
        r.runtime.database_path == line.database_path,
        r.runtime.frontend_origin == line.frontend_origin,
        r.runtime.stream_copy_workers == at_least_one(line.stream_copy_workers),
        r.runtime.thumbnail_workers == at_least_one(line.thumbnail_workers),
        are_chosen_settings(r.runtime.library@, line),
{
    let mut library: LibraryConfig = LibraryConfig::from_paths(&line.library_roots);
    library =
    library.with_hw_accel(chosen_accel(line.hw_accel, line.vaapi_device)).with_probe_workers(
        line.probe_workers,
    ).with_walk_workers(line.walk_workers);
    if line.no_ffprobe {
        library = library.without_probe();
    } else if let Some(path) = line.ffprobe_bin {
        library = library.with_probe_command(path);
    }
    if line.no_ffmpeg {
        library = library.without_ffmpeg();
    } else if let Some(path) = line.ffmpeg_bin {
        library = library.with_ffmpeg_command(path);
    }
    if line.no_thumbnail_cache {
        library = library.without_thumbnail_cache_dir();
    } else if let Some(path) = line.thumbnail_dir {
        library = library.with_thumbnail_cache_dir(path);
    }
    if line.no_stream_copy_cache {
        library = library.without_stream_copy_cache_dir();
    } else if let Some(path) = line.stream_copy_dir {
        library = library.with_stream_copy_cache_dir(path);
    }
    ServerConfig {
        api_addr: line.api_addr,
        runtime: RuntimeConfig {
            database_path: line.database_path,
            library,
            stream_copy_workers: at_least_one_worker(line.stream_copy_workers),
            thumbnail_workers: at_least_one_worker(line.thumbnail_workers),
            frontend_origin: line.frontend_origin,
        },
        log_filter: line.log_filter,
    }
}

/// What the parts of the service are started with.
#[derive(Debug)]
pub struct StartupPlan {
    pub frontend_origin: Option<Vec<u8>>,
    pub stream_copies: StreamCopyConfig,
    pub thumbnails: ThumbnailConfig,
    pub probes: ProbeConfig,
}

fn owned(value: Option<&str>) -> (r: Option<String>)
    ensures
        opt_text(r) == opt_str(value),
{
    match value {
        Some(text) => Some(text.to_owned()),
        None => None,
    }
}

/// Whether the parts are started with the settings of the library, each with at
/// least one worker.
pub open spec fn follows_settings(plan: StartupPlan, config: RuntimeConfig) -> bool {
    let settings = config.library@;
    &&& opt_text(plan.stream_copies.cache_dir) == settings.stream_copy_cache_dir
    &&& opt_text(plan.stream_copies.ffmpeg_command) == settings.ffmpeg_command
    &&& plan.stream_copies.hw_accel == settings.hw_accel
    &&& plan.stream_copies.max_concurrent == at_least_one(config.stream_copy_workers)
    &&& opt_text(plan.thumbnails.cache_dir) == settings.thumbnail_cache_dir
    &&& opt_text(plan.thumbnails.ffmpeg_command) == settings.ffmpeg_command
    &&& plan.thumbnails.hw_accel == settings.hw_accel
    &&& plan.thumbnails.max_concurrent == at_least_one(config.thumbnail_workers)
    &&& opt_text(plan.probes.probe_command) == settings.probe_command
    &&& plan.probes.max_concurrent == at_least_one(settings.probe_workers)
}

/// What the parts of the service are started with, or why it cannot start.
pub fn plan_startup(config: &RuntimeConfig) -> (r: Result<StartupPlan, PersistenceError>)
    ensures
        config.frontend_origin matches Some(text) ==> !is_header_value(encode_utf8(text@))
            ==> (r matches Err(PersistenceError::InvalidData(message)) && message@ == origin_message()),
        (config.frontend_origin is None || is_header_value(encode_utf8(config.frontend_origin->0@)))
            ==> r is Ok,
        r matches Ok(plan) ==> follows_settings(plan, *config),
        r matches Ok(plan) ==> (match plan.frontend_origin {
            Some(bytes) => config.frontend_origin is Some && bytes@
                == encode_utf8(config.frontend_origin->0@),
            None => config.frontend_origin is None,
        }),
{
    let frontend_origin: Option<Vec<u8>> = match parse_frontend_origin(
        as_opt_str(&config.frontend_origin),
    ) {
        Ok(origin) => origin,
        Err(error) => {
            return Err(error);
        },
    };
    let library: &LibraryConfig = &config.library;
    Ok(
        StartupPlan {
            frontend_origin,
            stream_copies: StreamCopyConfig {
                cache_dir: owned(library.stream_copy_cache_dir()),
                ffmpeg_command: owned(library.ffmpeg_command()),
                hw_accel: library.hw_accel().clone(),
                max_concurrent: at_least_one_worker(config.stream_copy_workers),
            },
            thumbnails: ThumbnailConfig {
                cache_dir: owned(library.thumbnail_cache_dir()),
                ffmpeg_command: owned(library.ffmpeg_command()),
                hw_accel: library.hw_accel().clone(),
                max_concurrent: at_least_one_worker(config.thumbnail_workers),
            },
            probes: ProbeConfig {
                probe_command: owned(library.probe_command()),
                max_concurrent: library.probe_workers(),
            },
        },
    )
}

/// Of each part that has a default, the command line either switches it off, names it, or
/// leaves the default; switching it off wins.
pub proof fn law_switching_off_wins(named: Option<String>, default: Option<Seq<char>>)
    ensures
        chosen(true, named, default) is None,
        named is Some ==> chosen(false, named, default) == Some(named->0@),
        named is None ==> chosen(false, named, default) == default,
{
}

/// The hardware is the one that the command line names, and a VAAPI device that it does
/// not name is the default one.
pub proof fn law_hardware_is_that_of_the_flag(
    accel: FfmpegHardwareAcceleration,
    flag: HwAccelFlag,
    device: Option<String>,
)
    requires
        is_chosen_accel(accel, flag, device),
    ensures
        accel is Software <==> flag == HwAccelFlag::Software,
        accel is Auto <==> flag == HwAccelFlag::Auto,
        accel is Nvenc <==> flag == HwAccelFlag::Nvenc,
        accel is Vaapi <==> flag == HwAccelFlag::Vaapi,
        accel is Qsv <==> flag == HwAccelFlag::Qsv,
        accel is Videotoolbox <==> flag == HwAccelFlag::Videotoolbox,
        accel matches FfmpegHardwareAcceleration::Vaapi { device: used } ==> used@ == (
        match device {
            Some(path) => path@,
            None => "/dev/dri/renderD128"@,
        }),
{
}

/// What the command line asks for is what the service is started with: its commands, its
/// directories and its hardware, and at least one worker of each kind.
pub proof fn law_service_starts_as_asked(
    line: CommandLine,
    config: ServerConfig,
    runtime: &RuntimeConfig,
    r: Result<StartupPlan, PersistenceError>,
)
    requires
        call_ensures(into_server_config, (line,), config),
        *runtime == config.runtime,
        call_ensures(plan_startup, (runtime,), r),
    ensures
        config.api_addr == line.api_addr && config.log_filter == line.log_filter
            && config.runtime.database_path == line.database_path,
        line.frontend_origin is None ==> r is Ok,
        r matches Ok(plan) ==> {
            &&& plan.frontend_origin is Some <==> line.frontend_origin is Some
            &&& line.no_ffmpeg ==> plan.stream_copies.ffmpeg_command is None
                && plan.thumbnails.ffmpeg_command is None
            &&& !line.no_ffmpeg && line.ffmpeg_bin is Some ==> opt_text(
                plan.stream_copies.ffmpeg_command,
            ) == Some(line.ffmpeg_bin->0@) && opt_text(plan.thumbnails.ffmpeg_command) == Some(
                line.ffmpeg_bin->0@,
            )
            &&& !line.no_ffmpeg && line.ffmpeg_bin is None ==> opt_text(
                plan.stream_copies.ffmpeg_command,
            ) == Some("ffmpeg"@)
            &&& line.no_ffprobe ==> plan.probes.probe_command is None
            &&& !line.no_ffprobe && line.ffprobe_bin is Some ==> opt_text(plan.probes.probe_command)
                == Some(line.ffprobe_bin->0@)
            &&& !line.no_ffprobe && line.ffprobe_bin is None ==> opt_text(plan.probes.probe_command)
                == Some("ffprobe"@)
            &&& line.no_thumbnail_cache ==> plan.thumbnails.cache_dir is None
            &&& !line.no_thumbnail_cache && line.thumbnail_dir is Some ==> opt_text(
                plan.thumbnails.cache_dir,
            ) == Some(line.thumbnail_dir->0@)
            &&& line.no_stream_copy_cache ==> plan.stream_copies.cache_dir is None
            &&& !line.no_stream_copy_cache && line.stream_copy_dir is Some ==> opt_text(
                plan.stream_copies.cache_dir,
            ) == Some(line.stream_copy_dir->0@)
            &&& plan.probes.max_concurrent >= 1 && plan.thumbnails.max_concurrent >= 1
                && plan.stream_copies.max_concurrent >= 1
            &&& line.probe_workers >= 1 ==> plan.probes.max_concurrent == line.probe_workers
            &&& line.thumbnail_workers >= 1 ==> plan.thumbnails.max_concurrent
                == line.thumbnail_workers
            &&& line.stream_copy_workers >= 1 ==> plan.stream_copies.max_concurrent
                == line.stream_copy_workers
            &&& is_chosen_accel(plan.stream_copies.hw_accel, line.hw_accel, line.vaapi_device)
            &&& is_chosen_accel(plan.thumbnails.hw_accel, line.hw_accel, line.vaapi_device)
        },
{
}

} // verus!
