//! The state of the desktop front end: the chosen folders and compression
//! settings, and what it knows of a running job. Each user action and each
//! line reported by the worker moves it to its next state.
use crate::numbers::{decimal, decimal_string, push_decimal};
use crate::protocol::{Event, EventView};
use crate::text::{chars_of, push_str, string_of};
use vstd::prelude::*;

verus! {

broadcast use vstd::seq_lib::group_seq_properties;

/// A compression profile offered for images and for videos.
#[derive(Clone, Copy, Debug, PartialEq, Eq, Structural)]
pub enum Preset {
    Gentle,
    Balanced,
    Ultra,
}

impl Preset {
    /// WebP quality of the profile.
    pub open spec fn quality_of(self) -> u8 {
        match self {
            Preset::Gentle => 92,
            Preset::Balanced => 80,
            Preset::Ultra => 62,
        }
    }

    /// H.264 constant rate factor of the profile.
    pub open spec fn crf_of(self) -> u8 {
        match self {
            Preset::Gentle => 21,
            Preset::Balanced => 28,
            Preset::Ultra => 32,
        }
    }

    /// Video bitrate cap of the profile.
    pub open spec fn bitrate_of(self) -> Seq<char> {
        match self {
            Preset::Gentle => "2M"@,
            Preset::Balanced => "500k"@,
            Preset::Ultra => "300k"@,
        }
    }

    /// FFmpeg speed preset of the profile.
    pub open spec fn speed_of(self) -> Seq<char> {
        match self {
            Preset::Gentle => "medium"@,
            Preset::Balanced => "slow"@,
            Preset::Ultra => "slower"@,
        }
    }

    /// Name shown for the profile.
    pub fn label(self) -> (r: &'static str)
        ensures
            r@ == (match self {
                Preset::Gentle => "Gentle"@,
                Preset::Balanced => "Balanced"@,
                Preset::Ultra => "Ultra"@,
            }),
    {
        match self {
            Preset::Gentle => "Gentle",
            Preset::Balanced => "Balanced",
            Preset::Ultra => "Ultra",
        }
    }

    /// WebP quality of the profile.
    pub fn image_quality(self) -> (r: u8)
        ensures
            r == self.quality_of(),
            self is Gentle ==> r == 92,
            self is Balanced ==> r == 80,
            self is Ultra ==> r == 62,
    {
        match self {
            Preset::Gentle => 92,
            Preset::Balanced => 80,
            Preset::Ultra => 62,
        }
    }

    /// H.264 constant rate factor of the profile.
    pub fn video_crf(self) -> (r: u8)
        ensures
            r == self.crf_of(),
            self is Gentle ==> r == 21,
            self is Balanced ==> r == 28,
            self is Ultra ==> r == 32,
    {
        match self {
            Preset::Gentle => 21,
            Preset::Balanced => 28,
            Preset::Ultra => 32,
        }
    }

    /// Video bitrate cap of the profile.
    pub fn video_bitrate(self) -> (r: &'static str)
        ensures
            r@ == self.bitrate_of(),
            self is Gentle ==> r@ == "2M"@,
            self is Balanced ==> r@ == "500k"@,
            self is Ultra ==> r@ == "300k"@,
    {
        match self {
            Preset::Gentle => "2M",
            Preset::Balanced => "500k",
            Preset::Ultra => "300k",
        }
    }

    /// FFmpeg speed preset of the profile.
    pub fn video_speed(self) -> (r: &'static str)
        ensures
            r@ == self.speed_of(),
            self is Gentle ==> r@ == "medium"@,
            self is Balanced ==> r@ == "slow"@,
            self is Ultra ==> r@ == "slower"@,
    {
        match self {
            Preset::Gentle => "medium",
            Preset::Balanced => "slow",
            Preset::Ultra => "slower",
        }
    }

    /// Short description shown under the video profiles.
    pub fn description(self) -> (r: &'static str)
        ensures
            r@ == (match self {
                Preset::Gentle => "detail-first"@,
                Preset::Balanced => "balanced"@,
                Preset::Ultra => "size-first"@,
            }),
    {
        match self {
            Preset::Gentle => "detail-first",
            Preset::Balanced => "balanced",
            Preset::Ultra => "size-first",
        }
    }
}

/// The settings of each profile: Gentle keeps the most detail (WebP quality 92;
/// CRF 21, at most 2M, medium speed), Balanced sits between (quality 80; CRF 28,
/// at most 500k, slow), Ultra gives the smallest files (quality 62; CRF 32, at
/// most 300k, slower). A stronger profile never raises the quality nor lowers
/// the rate factor.
pub proof fn law_preset_settings(p: Preset, q: Preset)
    ensures
        p is Gentle ==> p.quality_of() == 92 && p.crf_of() == 21 && p.bitrate_of() == "2M"@
            && p.speed_of() == "medium"@,
        p is Balanced ==> p.quality_of() == 80 && p.crf_of() == 28 && p.bitrate_of() == "500k"@
            && p.speed_of() == "slow"@,
        p is Ultra ==> p.quality_of() == 62 && p.crf_of() == 32 && p.bitrate_of() == "300k"@
            && p.speed_of() == "slower"@,
        preset_rank(p) <= preset_rank(q) ==> q.quality_of() <= p.quality_of() && p.crf_of()
            <= q.crf_of(),
{
}

/// How strongly a profile compresses: 0 for Gentle, 1 for Balanced, 2 for Ultra.
pub open spec fn preset_rank(p: Preset) -> nat {
    match p {
        Preset::Gentle => 0,
        Preset::Balanced => 1,
        Preset::Ultra => 2,
    }
}

/// The most log lines the front end keeps.
pub open spec fn max_logs() -> nat {
    150
}

/// The log after `line` is received: non-empty lines are appended, and the
/// oldest line is dropped once there are more than the limit.
pub open spec fn logged(logs: Seq<Seq<char>>, line: Seq<char>) -> Seq<Seq<char>> {
    if line.len() == 0 {
        logs
    } else if logs.push(line).len() > max_logs() {
        logs.push(line).drop_first()
    } else {
        logs.push(line)
    }
}

/// The log of the front end: at most `max_logs()` lines, oldest first.
pub struct LogBook {
    lines: Vec<String>,
}

impl View for LogBook {
    type V = Seq<Seq<char>>;

    closed spec fn view(&self) -> Seq<Seq<char>> {
        self.lines.deep_view()
    }
}

impl LogBook {
    #[verifier::type_invariant]
    spec fn bounded(self) -> bool {
        self.lines.len() <= max_logs()
    }

    /// An empty log.
    pub fn new() -> (r: LogBook)
        ensures
            r@.len() == 0,
    {
        let r = LogBook { lines: Vec::new() };
        assert(r.lines.deep_view() =~= Seq::<Seq<char>>::empty());
        r
    }

    /// Number of lines; never more than `max_logs()`.
    pub fn len(&self) -> (n: usize)
        ensures
            n == self@.len(),
            n <= max_logs(),
    {
        proof {
            use_type_invariant(self);
        }
        self.lines.len()
    }

    /// The lines, oldest first.
    pub fn lines(&self) -> (r: &Vec<String>)
        ensures
            r.deep_view() == self@,
    {
        &self.lines
    }

    /// Appends a non-empty line, dropping the oldest line when the log grows
    /// past its limit.
    pub fn push(&mut self, line: String)
        ensures
            final(self)@ == logged(old(self)@, line@),
    {
        proof {
            use_type_invariant(&*self);
        }
        if line.as_str().is_empty() {
            return;
        }
        let mut lines = Vec::new();
        std::mem::swap(&mut lines, &mut self.lines);
        let ghost before = lines.deep_view();
        lines.push(line);
        assert(lines.deep_view() =~= before.push(line@));
        if lines.len() > 150 {
            let ghost pushed = lines.deep_view();
            lines.remove(0);
            assert(lines.deep_view() =~= pushed.drop_first());
        }
        self.lines = lines;
    }
}

/// The front end's state.
pub struct Session {
    /// Folder to compress.
    pub input: String,
    /// Folder that receives the result.
    pub output: String,
    /// Chosen image profile.
    pub image_preset: Preset,
    /// Chosen video profile.
    pub video_preset: Preset,
    /// Whether the advanced controls are shown.
    pub advanced: bool,
    /// WebP quality, 1 to 100.
    pub image_quality: u8,
    /// H.264 constant rate factor, 0 to 51.
    pub video_crf: u8,
    /// Video bitrate cap.
    pub video_bitrate: String,
    /// FFmpeg speed preset.
    pub video_speed: String,
    /// 7z compression level, 0 to 9.
    pub archive_level: u32,
    /// Whether a job is running.
    pub running: bool,
    /// Steps of the job finished.
    pub completed: usize,
    /// Steps of the job.
    pub total: usize,
    /// Status line shown to the user.
    pub status: String,
    /// Lines the worker printed that are not progress reports.
    pub logs: LogBook,
}

impl Session {
    /// Whether `other` has the same folders and settings and the same running flag.
    pub open spec fn same_settings(&self, other: &Session) -> bool {
        &&& other.input@ == self.input@
        &&& other.output@ == self.output@
        &&& other.image_preset == self.image_preset
        &&& other.video_preset == self.video_preset
        &&& other.advanced == self.advanced
        &&& other.image_quality == self.image_quality
        &&& other.video_crf == self.video_crf
        &&& other.video_bitrate@ == self.video_bitrate@
        &&& other.video_speed@ == self.video_speed@
        &&& other.archive_level == self.archive_level
    }

    /// Whether `other` knows the same of the job as `self`.
    pub open spec fn same_job(&self, other: &Session) -> bool {
        &&& other.running == self.running
        &&& other.completed == self.completed
        &&& other.total == self.total
        &&& other.status@ == self.status@
        &&& other.logs@ == self.logs@
    }

    /// The state before anything is chosen: balanced profiles, no job.
    pub fn new() -> (s: Session)
        ensures
            s.input@.len() == 0,
            s.output@.len() == 0,
            s.image_preset == Preset::Balanced,
            s.video_preset == Preset::Balanced,
            !s.advanced,
            s.image_quality == 80,
            s.video_crf == 28,
            s.video_bitrate@ == "500k"@,
            s.video_speed@ == "slow"@,
            s.archive_level == 9,
            !s.running,
            s.completed == 0,
            s.total == 0,
            s.status@ == "Choose folders, then select your compression profile."@,
            s.logs@.len() == 0,
    {
        let s = Session {
            input: String::new(),
            output: String::new(),
            image_preset: Preset::Balanced,
            video_preset: Preset::Balanced,
            advanced: false,
            image_quality: 80,
            video_crf: 28,
            video_bitrate: string_of(&chars_of("500k")),
            video_speed: string_of(&chars_of("slow")),
            archive_level: 9,
            running: false,
            completed: 0,
            total: 0,
            status: string_of(&chars_of("Choose folders, then select your compression profile.")),
            logs: LogBook::new(),
        };
        s
    }

    /// Chooses the image profile `p`, which sets the image quality.
    pub fn select_image_preset(&mut self, p: Preset)
        ensures
            final(self).image_preset == p,
            final(self).image_quality == p.quality_of(),
            final(self).input@ == old(self).input@,
            final(self).output@ == old(self).output@,
            final(self).video_preset == old(self).video_preset,
            final(self).advanced == old(self).advanced,
            final(self).video_crf == old(self).video_crf,
            final(self).video_bitrate@ == old(self).video_bitrate@,
            final(self).video_speed@ == old(self).video_speed@,
            final(self).archive_level == old(self).archive_level,
            old(self).same_job(&*final(self)),
    {
        self.image_preset = p;
        self.image_quality = p.image_quality();
    }

    /// Chooses the video profile `p`, which sets the rate factor, the bitrate cap
    /// and the speed.
    pub fn select_video_preset(&mut self, p: Preset)
        ensures
            final(self).video_preset == p,
            final(self).video_crf == p.crf_of(),
            final(self).video_bitrate@ == p.bitrate_of(),
            final(self).video_speed@ == p.speed_of(),
            final(self).input@ == old(self).input@,
            final(self).output@ == old(self).output@,
            final(self).image_preset == old(self).image_preset,
            final(self).advanced == old(self).advanced,
            final(self).image_quality == old(self).image_quality,
            final(self).archive_level == old(self).archive_level,
            old(self).same_job(&*final(self)),
    {
        self.video_preset = p;
        self.video_crf = p.video_crf();
        self.video_bitrate = string_of(&chars_of(p.video_bitrate()));
        self.video_speed = string_of(&chars_of(p.video_speed()));
    }

    /// Whether both folders are chosen. When one is missing the status asks for
    /// them and nothing else changes.
    pub fn ready_to_start(&mut self) -> (ok: bool)
        ensures
            ok == (old(self).input@.len() > 0 && old(self).output@.len() > 0),
            old(self).same_settings(&*final(self)),
            ok ==> old(self).same_job(&*final(self)),
            !ok ==> {
                &&& final(self).status@ == "Choose an input and output folder first."@
                &&& final(self).running == old(self).running
                &&& final(self).completed == old(self).completed
                &&& final(self).total == old(self).total
                &&& final(self).logs@ == old(self).logs@
            },
    {
        if self.input.as_str().is_empty() || self.output.as_str().is_empty() {
            self.status = string_of(&chars_of("Choose an input and output folder first."));
            false
        } else {
            true
        }
    }

    /// The worker program could not be found beside the front end.
    pub fn worker_missing(&mut self)
        ensures
            final(self).status@ == "Could not find foxycompressor beside the GUI executable."@,
            old(self).same_settings(&*final(self)),
            final(self).running == old(self).running,
            final(self).completed == old(self).completed,
            final(self).total == old(self).total,
            final(self).logs@ == old(self).logs@,
    {
        self.status = string_of(&chars_of("Could not find foxycompressor beside the GUI executable."));
    }

    /// The arguments the worker is started with: the two folders, then the
    /// image quality, rate factor, bitrate cap, speed and archive level.
    pub fn worker_args(&self) -> (r: Vec<String>)
        ensures
            r.deep_view() == seq![
                self.input@,
                self.output@,
                "--image-quality"@,
                decimal(self.image_quality as nat),
                "--video-crf"@,
                decimal(self.video_crf as nat),
                "--video-bitrate"@,
                self.video_bitrate@,
                "--video-preset"@,
                self.video_speed@,
                "--archive-level"@,
                decimal(self.archive_level as nat),
            ],
    {
        let mut r: Vec<String> = Vec::new();
        r.push(self.input.clone());
        r.push(self.output.clone());
        r.push(string_of(&chars_of("--image-quality")));
        r.push(decimal_string(self.image_quality as u64));
        r.push(string_of(&chars_of("--video-crf")));
        r.push(decimal_string(self.video_crf as u64));
        r.push(string_of(&chars_of("--video-bitrate")));
        r.push(self.video_bitrate.clone());
        r.push(string_of(&chars_of("--video-preset")));
        r.push(self.video_speed.clone());
        r.push(string_of(&chars_of("--archive-level")));
        r.push(decimal_string(self.archive_level as u64));
        assert(r.deep_view() =~= seq![
            self.input@,
            self.output@,
            "--image-quality"@,
            decimal(self.image_quality as nat),
            "--video-crf"@,
            decimal(self.video_crf as nat),
            "--video-bitrate"@,
            self.video_bitrate@,
            "--video-preset"@,
            self.video_speed@,
            "--archive-level"@,
            decimal(self.archive_level as nat),
        ]);
        r
    }

    /// The worker started: the job starts from nothing.
    pub fn started(&mut self)
        ensures
            old(self).same_settings(&*final(self)),
            final(self).running,
            final(self).completed == 0,
            final(self).total == 0,
            final(self).logs@.len() == 0,
            final(self).status@ == "Scanning input..."@,
    {
        self.logs = LogBook::new();
        self.completed = 0;
        self.total = 0;
        self.running = true;
        self.status = string_of(&chars_of("Scanning input..."));
    }

    /// The worker could not be started; `error` says why.
    pub fn start_failed(&mut self, error: &str)
        ensures
            final(self).status@ == "Could not start the CLI: "@ + error@,
            old(self).same_settings(&*final(self)),
            final(self).running == old(self).running,
            final(self).completed == old(self).completed,
            final(self).total == old(self).total,
            final(self).logs@ == old(self).logs@,
    {
        let mut v = chars_of("Could not start the CLI: ");
        push_str(&mut v, error);
        self.status = string_of(&v);
    }

    /// The user cancelled the job.
    pub fn cancelled(&mut self)
        ensures
            !final(self).running,
            final(self).status@ == "Cancelled. Completed output remains available."@,
            old(self).same_settings(&*final(self)),
            final(self).completed == old(self).completed,
            final(self).total == old(self).total,
            final(self).logs@ == old(self).logs@,
    {
        self.running = false;
        self.status = string_of(&chars_of("Cancelled. Completed output remains available."));
    }

    /// The worker exited, successfully or not.
    pub fn finished(&mut self, success: bool)
        ensures
            !final(self).running,
            final(self).status@ == (if success {
                "Compression complete."@
            } else {
                "Compression completed with warnings or errors."@
            }),
            old(self).same_settings(&*final(self)),
            final(self).completed == old(self).completed,
            final(self).total == old(self).total,
            final(self).logs@ == old(self).logs@,
    {
        self.running = false;
        self.status = if success {
            string_of(&chars_of("Compression complete."))
        } else {
            string_of(&chars_of("Compression completed with warnings or errors."))
        };
    }

    /// Takes in one line reported by the worker. A video report changes nothing
    /// here: its number is read by the caller, which applies the line as a plain
    /// `Line` when it does not read.
    pub fn apply(&mut self, event: Event)
        ensures
            old(self).same_settings(&*final(self)),
            final(self).running == old(self).running,
            match event@ {
                EventView::Total(n) => {
                    &&& final(self).total == n
                    &&& final(self).completed == old(self).completed
                    &&& final(self).status@ == "Preparing "@ + decimal(n as nat)
                        + " operations..."@
                    &&& final(self).logs@ == old(self).logs@
                },
                EventView::Progress { completed, total, status } => {
                    &&& final(self).completed == (match completed {
                        Some(c) => c,
                        None => old(self).completed,
                    })
                    &&& final(self).total == (match total {
                        Some(t) => t,
                        None => old(self).total,
                    })
                    &&& final(self).status@ == status
                    &&& final(self).logs@ == old(self).logs@
                },
                EventView::Stage(v) => {
                    &&& final(self).status@ == "Compressing "@ + v
                    &&& final(self).completed == old(self).completed
                    &&& final(self).total == old(self).total
                    &&& final(self).logs@ == old(self).logs@
                },
                EventView::Line(line) => {
                    &&& final(self).logs@ == logged(old(self).logs@, line)
                    &&& final(self).completed == old(self).completed
                    &&& final(self).total == old(self).total
                    &&& final(self).status@ == old(self).status@
                },
                _ => old(self).same_job(&*final(self)),
            },
    {
        match event {
            Event::Total(n) => {
                self.total = n;
                let mut v = chars_of("Preparing ");
                push_decimal(&mut v, n as u64);
                push_str(&mut v, " operations...");
                self.status = string_of(&v);
            },
            Event::Progress { completed, total, status } => {
                if let Some(c) = completed {
                    self.completed = c;
                }
                if let Some(t) = total {
                    self.total = t;
                }
                self.status = status;
            },
            Event::Stage(v) => {
                let mut s = chars_of("Compressing ");
                push_str(&mut s, v.as_str());
                self.status = string_of(&s);
            },
            Event::Line(line) => {
                self.logs.push(line);
            },
            _ => {},
        }
    }

}

} // verus!
