//! Settings of the CPU widget. All of them are command-line flags, so the
//! whole configuration lives in the bar's `exec` line; this module holds
//! them and checks what the flag parser cannot check field by field.
use vstd::prelude::*;

verus! {

broadcast use vstd::string::group_string_axioms;

/// The CPU widget's settings.
#[derive(Debug)]
pub struct Args {
    /// Stat file used to poll the CPU.
    pub stat_path: String,
    /// Frames to loop through (non-empty).
    pub frames: String,
    /// Maximum FPS.
    pub high_rate: u8,
    /// Minimum FPS.
    pub low_rate: u8,
    /// CPU polling period in milliseconds.
    pub poll_period: u64,
    /// Enable smooth transitions between CPU load values.
    pub smoothing_enabled: bool,
    /// Milliseconds to transition from 0% to 100%.
    pub smoothing_value: u64,
    /// Enable sleeping (idle animation).
    pub sleeping_enabled: bool,
    /// Max load to enter sleeping mode (percent).
    pub sleeping_threshold: u8,
    /// Max load to remain in sleeping mode (percent).
    pub wakeup_threshold: u8,
    /// Frames to loop in sleeping mode (non-empty).
    pub sleeping_frames: String,
    /// FPS for the sleeping animation.
    pub sleeping_rate: u8,
    /// Enable output formatting.
    pub format_enabled: bool,
    /// Format string: $frame, $lcpu, $rcpu, $$ (escape a literal $).
    pub format: String,
}

impl Args {
    /// The problems with these settings, in the order they are reported.
    pub open spec fn config_errors(&self) -> Seq<Seq<char>> {
        (if self.frames@.len() == 0 {
            seq!["`frames` cannot be an empty string"@]
        } else {
            Seq::empty()
        }) + (if self.sleeping_frames@.len() == 0 {
            seq!["`sleeping_frames` cannot be an empty string"@]
        } else {
            Seq::empty()
        }) + (if self.sleeping_threshold > self.wakeup_threshold {
            seq!["`wakeup_threshold` should be greater than `sleeping_threshold`"@]
        } else {
            Seq::empty()
        })
    }

    /// Cross-field validation that the flag parser cannot express.
    pub fn validate(&self) -> (r: Result<(), Vec<String>>)
        ensures
            match r {
                Ok(()) => self.config_errors().len() == 0,
                Err(errors) => self.config_errors().len() > 0 && errors@.map_values(
                    |e: String| e@,
                ) == self.config_errors(),
            },
    {
        let mut errors: Vec<String> = Vec::new();

        if self.frames.as_str().is_empty() {
            errors.push("`frames` cannot be an empty string".to_string());
        }
        if self.sleeping_frames.as_str().is_empty() {
            errors.push("`sleeping_frames` cannot be an empty string".to_string());
        }
        if self.sleeping_threshold > self.wakeup_threshold {
            errors.push(
                "`wakeup_threshold` should be greater than `sleeping_threshold`".to_string(),
            );
        }
        assert(errors@.map_values(|e: String| e@) =~= self.config_errors());
        if errors.len() == 0 {
            Ok(())
        } else {
            Err(errors)
        }
    }
}

} // verus!
