use vstd::prelude::*;

use crate::clock::{
    auto_interval, interval_down, interval_up, spec_auto_interval, spec_interval_down,
    spec_interval_up, Clock, ClockMode, CounterType, DEFAULT_TIMER_DURATION, INTERVAL_STEP,
    MAX_TIMER_DURATION,
};
use crate::color::{next_color, prev_color, spec_color_name, spec_next_color, spec_prev_color};
use crate::position::spec_toml_name;
use crate::config::{
    changes_view, toml_bool, toml_int, toml_str, Change, ChangeView, Config, TomlValueView,
};
use crate::keys::{lemma_letter_bindings, plain_or_shifted_press, spec_command, with_char, Command, KeyEvent};
use crate::error::Error;
use crate::text::{decimal, push_decimal, push_repeated, repeat_char};
use vstd::string::StrSliceExecFns;

verus! {

/// The durations given on the command line for a timer.
#[derive(Clone, Debug, PartialEq, Eq)]
pub struct TimerArgs {
    pub seconds: Option<u64>,
    pub minutes: Option<u64>,
    pub hours: Option<u64>,
    /// End the program when the timer runs out.
    pub kill: bool,
}

/// What the command line asks the clock to show.
#[derive(Clone, Debug, PartialEq, Eq)]
pub enum Mode {
    Clock,
    Stopwatch,
    Timer(TimerArgs),
}

/// A duration part given on the command line, zero when absent.
pub open spec fn part(x: Option<u64>) -> int {
    match x {
        Some(v) => v as int,
        None => 0,
    }
}

/// The length in seconds of a timer given in hours, minutes and seconds.
pub open spec fn timer_total(args: TimerArgs) -> int {
    part(args.hours) * 3600 + part(args.minutes) * 60 + part(args.seconds)
}

/// Whether the command-line durations of a timer add up within 64 bits.
pub open spec fn timer_args_fit(mode: Option<Mode>) -> bool {
    match mode {
        Some(Mode::Timer(args)) => timer_total(args) <= u64::MAX,
        _ => true,
    }
}

/// What `clock_mode` gives: the time of day by default, with the time zone
/// and date format of the configuration; a stopwatch; or a timer of the
/// default length when no duration is given, of the given length when it
/// is at most the longest allowed, and an error naming the parts otherwise.
pub open spec fn clock_mode_matches(mode: Option<Mode>, config: Config, r: Result<ClockMode, Error>) -> bool {
    match mode {
        Some(Mode::Clock) | None => r matches Ok(ClockMode::Time { utc, date_format })
            && utc == config.date.utc && date_format == config.date.fmt,
        Some(Mode::Stopwatch) => r matches Ok(ClockMode::Counter(CounterType::Stopwatch)),
        Some(Mode::Timer(args)) => if args.seconds is None && args.minutes is None && args.hours is None {
            r matches Ok(ClockMode::Counter(CounterType::Timer { duration_secs, kill }))
                && duration_secs == DEFAULT_TIMER_DURATION && kill == args.kill
        } else if timer_total(args) > MAX_TIMER_DURATION {
            r matches Err(Error::TimerDurationTooLong { hours, minutes, seconds })
                && hours == part(args.hours) && minutes == part(args.minutes)
                && seconds == part(args.seconds)
        } else {
            r matches Ok(ClockMode::Counter(CounterType::Timer { duration_secs, kill }))
                && duration_secs == timer_total(args) && kill == args.kill
        },
    }
}

/// The clock settings that a configuration and a mode give.
pub open spec fn clock_from_config(config: Config, mode: ClockMode) -> Clock {
    Clock {
        mode: mode,
        color: config.general.color,
        blink: config.general.blink,
        bold: config.general.bold,
        interval_ms: match config.general.interval {
            Some(ms) => ms,
            None => spec_auto_interval(config.general.blink),
        },
        interval_auto: config.general.interval is None,
        x_pos: config.position.x,
        y_pos: config.position.y,
        use_12h: config.date.use_12h,
        hide_seconds: config.date.hide_seconds,
    }
}

/// The state of a running clock: its settings, whether the status bar is
/// hidden, and the configuration as it was last read (the baseline that
/// changes are measured against).
#[derive(Debug, PartialEq, Eq)]
pub struct State {
    pub clock: Clock,
    pub plain: bool,
    pub baseline: Config,
}

/// The invariant of a running clock: an automatic interval is the one that
/// the blink setting asks for, and the time zone and date format shown are
/// those of the baseline configuration.
pub open spec fn state_wf(s: State) -> bool {
    &&& s.clock.interval_auto ==> s.clock.interval_ms == spec_auto_interval(s.clock.blink)
    &&& s.clock.mode matches ClockMode::Time { utc, date_format } ==> {
        &&& utc == s.baseline.date.utc
        &&& date_format == s.baseline.date.fmt
    }
}

impl State {
    /// The mode the clock starts in, from the command line and the configuration.
    pub fn clock_mode(mode: Option<Mode>, config: &Config) -> (r: Result<ClockMode, Error>)
        requires
            timer_args_fit(mode),
        ensures
            clock_mode_matches(mode, *config, r),
            (mode matches Some(Mode::Timer(args)) ==> (r is Ok ==> (r matches Ok(
                ClockMode::Counter(CounterType::Timer { duration_secs, kill }),
            ) && kill == args.kill))),
    {
        let args = match mode {
            Some(Mode::Clock) | None => {
                return Ok(
                    ClockMode::Time { utc: config.date.utc, date_format: config.date.fmt.clone() },
                );
            },
            Some(Mode::Stopwatch) => {
                return Ok(ClockMode::Counter(CounterType::Stopwatch));
            },
            Some(Mode::Timer(timer_args)) => timer_args,
        };
        let TimerArgs { seconds, minutes, hours, kill } = args;
        let total_seconds: u64 = match (seconds, minutes, hours) {
            (None, None, None) => DEFAULT_TIMER_DURATION,
            _ => {
                let seconds: u64 = match seconds {
                    Some(v) => v,
                    None => 0,
                };
                let minutes: u64 = match minutes {
                    Some(v) => v,
                    None => 0,
                };
                let hours: u64 = match hours {
                    Some(v) => v,
                    None => 0,
                };
                let total_seconds = hours * 3600 + minutes * 60 + seconds;
                if total_seconds > MAX_TIMER_DURATION {
                    return Err(Error::TimerDurationTooLong { hours, minutes, seconds });
                }
                total_seconds
            },
        };
        Ok(ClockMode::Counter(CounterType::Timer { duration_secs: total_seconds, kill }))
    }

    /// The state a clock starts in: settings from the configuration (after
    /// the command line has overridden it), the mode from `clock_mode`, and
    /// the configuration kept as the baseline.
    pub fn new(config: Config, mode: Option<Mode>, plain: bool) -> (r: Result<State, Error>)
        requires
            timer_args_fit(mode),
        ensures
            match r {
                Ok(s) => {
                    &&& clock_mode_matches(mode, config, Ok(s.clock.mode))
                    &&& s.clock == clock_from_config(config, s.clock.mode)
                    &&& s.plain == plain
                    &&& s.baseline == config
                    &&& state_wf(s)
                },
                Err(e) => clock_mode_matches(mode, config, Err(e)),
            },
    {
        let clock_mode = match State::clock_mode(mode, &config) {
            Ok(m) => m,
            Err(e) => {
                return Err(e);
            },
        };
        let interval_ms = match config.general.interval {
            Some(ms) => ms,
            None => auto_interval(config.general.blink),
        };
        let clock = Clock {
            mode: clock_mode,
            color: config.general.color,
            blink: config.general.blink,
            bold: config.general.bold,
            interval_ms,
            interval_auto: config.general.interval.is_none(),
            x_pos: config.position.x,
            y_pos: config.position.y,
            use_12h: config.date.use_12h,
            hide_seconds: config.date.hide_seconds,
        };
        Ok(State { clock, plain, baseline: config })
    }
}

/// The mode after a configuration is read again: the time of day takes the
/// time zone and date format of the new configuration; counters go on.
pub open spec fn mode_after_reload(mode: ClockMode, config: Config) -> ClockMode {
    match mode {
        ClockMode::Time { .. } => ClockMode::Time { utc: config.date.utc, date_format: config.date.fmt },
        _ => mode,
    }
}

impl State {
    /// Takes over a configuration that was read again: every setting it
    /// holds replaces the clock's, and it becomes the new baseline. Whether
    /// the status bar is shown does not change.
    pub fn reload_config(&mut self, config: Config)
        ensures
            final(self).clock == clock_from_config(config, mode_after_reload(old(self).clock.mode, config)),
            final(self).plain == old(self).plain,
            final(self).baseline == config,
            state_wf(*final(self)),
    {
        self.clock.color = config.general.color;
        self.clock.blink = config.general.blink;
        self.clock.bold = config.general.bold;
        self.clock.interval_auto = config.general.interval.is_none();
        self.clock.interval_ms = match config.general.interval {
            Some(ms) => ms,
            None => auto_interval(self.clock.blink),
        };
        self.clock.x_pos = config.position.x;
        self.clock.y_pos = config.position.y;
        self.clock.use_12h = config.date.use_12h;
        self.clock.hide_seconds = config.date.hide_seconds;
        if let ClockMode::Time { .. } = self.clock.mode {
            self.clock.mode = ClockMode::Time { utc: config.date.utc, date_format: config.date.fmt.clone() };
        }
        self.baseline = config;
    }
}

/// What the program around the state has to do after a key.
#[derive(Clone, Copy, Debug, PartialEq, Eq, Structural)]
pub enum Action {
    /// Leave the program.
    Quit,
    /// Read the configuration file again before the next frame.
    ReloadConfig,
    /// Pause or resume the running counter, then clear and redraw.
    TogglePause,
    /// Restart the running counter, then clear and redraw.
    RestartCounter,
    /// Clear the screen and redraw, as the layout changed.
    Redraw,
    /// Nothing beyond drawing the next frame.
    Nothing,
}

/// The state and action after a command. Quitting and reloading leave the
/// state alone; counter commands act only on a counter; the interval keys
/// step the interval and mark it automatic exactly when it lands on the
/// automatic interval; the blink key keeps an automatic interval in step
/// with the new blink setting.
pub open spec fn spec_apply_command(s: State, cmd: Command) -> (State, Action) {
    let auto = spec_auto_interval(s.clock.blink);
    match cmd {
        Command::Quit => (s, Action::Quit),
        Command::ReloadConfig => (s, Action::ReloadConfig),
        Command::TogglePause => (s, if s.clock.mode is Counter { Action::TogglePause } else { Action::Nothing }),
        Command::RestartCounter => (s, if s.clock.mode is Counter { Action::RestartCounter } else { Action::Nothing }),
        Command::IntervalDown => {
            let n = spec_interval_down(s.clock.interval_ms, auto);
            (State { clock: Clock { interval_ms: n, interval_auto: n == auto, ..s.clock }, ..s }, Action::Nothing)
        },
        Command::IntervalUp => {
            let n = spec_interval_up(s.clock.interval_ms, auto);
            (State { clock: Clock { interval_ms: n, interval_auto: n == auto, ..s.clock }, ..s }, Action::Nothing)
        },
        Command::NextColor => (State { clock: Clock { color: spec_next_color(s.clock.color), ..s.clock }, ..s }, Action::Nothing),
        Command::PrevColor => (State { clock: Clock { color: spec_prev_color(s.clock.color), ..s.clock }, ..s }, Action::Nothing),
        Command::ToggleBlink => {
            let blink = !s.clock.blink;
            let ms = if s.clock.interval_auto { spec_auto_interval(blink) } else { s.clock.interval_ms };
            (State { clock: Clock { blink: blink, interval_ms: ms, ..s.clock }, ..s }, Action::Nothing)
        },
        Command::ToggleSeconds => (State { clock: Clock { hide_seconds: !s.clock.hide_seconds, ..s.clock }, ..s }, Action::Redraw),
        Command::TogglePlain => (State { plain: !s.plain, ..s }, Action::Redraw),
        Command::Ignore => (s, Action::Nothing),
    }
}

/// Whether a command can be carried out without overflow: lengthening the
/// interval needs room for one more step.
pub open spec fn command_fits(s: State, cmd: Command) -> bool {
    cmd == Command::IntervalUp ==> s.clock.interval_ms + INTERVAL_STEP <= u64::MAX
}

impl State {
    /// Carries out a command on the clock's settings and says what is left
    /// to do outside.
    pub fn apply_command(&mut self, cmd: Command) -> (a: Action)
        requires
            command_fits(*old(self), cmd),
        ensures
            (*final(self), a) == spec_apply_command(*old(self), cmd),
            cmd == Command::TogglePause ==> (a == Action::TogglePause <==> old(self).clock.mode is Counter),
            cmd == Command::RestartCounter ==> (a == Action::RestartCounter <==> old(self).clock.mode is Counter),
    {
        match cmd {
            Command::Quit => Action::Quit,
            Command::ReloadConfig => Action::ReloadConfig,
            Command::TogglePause => match self.clock.mode {
                ClockMode::Counter(_) => Action::TogglePause,
                _ => Action::Nothing,
            },
            Command::RestartCounter => match self.clock.mode {
                ClockMode::Counter(_) => Action::RestartCounter,
                _ => Action::Nothing,
            },
            Command::IntervalDown => {
                let auto = auto_interval(self.clock.blink);
                let n = interval_down(self.clock.interval_ms, auto);
                self.clock.interval_ms = n;
                self.clock.interval_auto = n == auto;
                Action::Nothing
            },
            Command::IntervalUp => {
                let auto = auto_interval(self.clock.blink);
                let n = interval_up(self.clock.interval_ms, auto);
                self.clock.interval_ms = n;
                self.clock.interval_auto = n == auto;
                Action::Nothing
            },
            Command::NextColor => {
                self.clock.color = next_color(&self.clock.color);
                Action::Nothing
            },
            Command::PrevColor => {
                self.clock.color = prev_color(&self.clock.color);
                Action::Nothing
            },
            Command::ToggleBlink => {
                self.clock.blink = !self.clock.blink;
                if self.clock.interval_auto {
                    self.clock.interval_ms = auto_interval(self.clock.blink);
                }
                Action::Nothing
            },
            Command::ToggleSeconds => {
                self.clock.hide_seconds = !self.clock.hide_seconds;
                Action::Redraw
            },
            Command::TogglePlain => {
                self.plain = !self.plain;
                Action::Redraw
            },
            Command::Ignore => Action::Nothing,
        }
    }

    /// Handles one key: finds the command it is bound to and carries it out.
    pub fn handle_key(&mut self, key: &KeyEvent) -> (a: Action)
        requires
            command_fits(*old(self), spec_command(*key)),
        ensures
            (*final(self), a) == spec_apply_command(*old(self), spec_command(*key)),
    {
        let cmd = key.command();
        self.apply_command(cmd)
    }
}

/// The interval to record in the configuration: none when it is automatic.
pub open spec fn recorded_interval(clock: Clock) -> Option<u64> {
    if clock.interval_auto {
        None
    } else {
        Some(clock.interval_ms)
    }
}

/// One edit when `cond` holds, none otherwise.
pub open spec fn edit_if(cond: bool, c: ChangeView) -> Seq<ChangeView> {
    if cond {
        seq![c]
    } else {
        seq![]
    }
}

/// The edits that bring the configuration file from the baseline to the
/// clock's settings, in file order: one per setting that differs, setting
/// the new value, except that an interval that became automatic is removed.
pub open spec fn spec_pending_changes(clock: Clock, base: Config) -> Seq<ChangeView> {
    general_edits(clock, base) + layout_edits(clock, base)
}


/// Appends `c` to `changes` when `cond` holds.
fn push_if(changes: &mut Vec<Change<'static>>, cond: bool, c: Change<'static>)
    ensures
        changes_view(final(changes)@) == changes_view(old(changes)@) + edit_if(cond, c@),
{
    if cond {
        changes.push(c);
    }
    assert(changes_view(changes@) =~= changes_view(old(changes)@) + edit_if(cond, c@));
}

/// The edit of the interval: set to the recorded number, or removed when
/// the interval became automatic; none when the baseline already agrees.
pub open spec fn interval_edit(clock: Clock, base: Config) -> Seq<ChangeView> {
    if recorded_interval(clock) != base.general.interval {
        match recorded_interval(clock) {
            Some(ms) => seq![ChangeView::SetValue("general"@, "interval"@, TomlValueView::Int((ms as i64) as int))],
            None => seq![ChangeView::Remove("general"@, "interval"@)],
        }
    } else {
        seq![]
    }
}

impl State {
    /// The edits to write to the configuration file so that it records the
    /// settings changed with keys since the configuration was last read.
    pub fn persist_changes(&self) -> (r: Vec<Change<'static>>)
        ensures
            changes_view(r@) == spec_pending_changes(self.clock, self.baseline),
    {
        let base = &self.baseline;
        let clock = &self.clock;
        let color_str = clock.color.as_toml_string();
        let mut changes: Vec<Change<'static>> = Vec::new();
        assert(changes_view(changes@) =~= seq![]);

        push_if(&mut changes, clock.color != base.general.color,
            Change::SetValue("general", "color", toml_str(color_str.as_str())));
        push_if(&mut changes, clock.blink != base.general.blink,
            Change::SetValue("general", "blink", toml_bool(clock.blink)));
        push_if(&mut changes, clock.bold != base.general.bold,
            Change::SetValue("general", "bold", toml_bool(clock.bold)));
        let ghost before_interval = changes_view(changes@);

        let current_interval: Option<u64> = if clock.interval_auto {
            None
        } else {
            Some(clock.interval_ms)
        };
        let same_interval = match (current_interval, base.general.interval) {
            (Some(a), Some(b)) => a == b,
            (None, None) => true,
            _ => false,
        };
        if !same_interval {
            match current_interval {
                Some(ms) => changes.push(Change::SetValue("general", "interval", toml_int(ms as i64))),
                None => changes.push(Change::Remove("general", "interval")),
            }
        }
        assert(changes_view(changes@) =~= before_interval + interval_edit(*clock, *base));
        let ghost general_part = changes_view(changes@);

        push_if(&mut changes, clock.x_pos != base.position.x,
            Change::SetValue("position", "horizontal", toml_str(clock.x_pos.as_toml_str())));
        push_if(&mut changes, clock.y_pos != base.position.y,
            Change::SetValue("position", "vertical", toml_str(clock.y_pos.as_toml_str())));
        push_if(&mut changes, clock.use_12h != base.date.use_12h,
            Change::SetValue("date", "use_12h", toml_bool(clock.use_12h)));
        push_if(&mut changes, clock.hide_seconds != base.date.hide_seconds,
            Change::SetValue("date", "hide_seconds", toml_bool(clock.hide_seconds)));
        proof {
            let a = edit_if(clock.x_pos != base.position.x,
                ChangeView::SetValue("position"@, "horizontal"@, TomlValueView::Str(spec_toml_name(clock.x_pos))));
            let b = edit_if(clock.y_pos != base.position.y,
                ChangeView::SetValue("position"@, "vertical"@, TomlValueView::Str(spec_toml_name(clock.y_pos))));
            let c = edit_if(clock.use_12h != base.date.use_12h,
                ChangeView::SetValue("date"@, "use_12h"@, TomlValueView::Bool(clock.use_12h)));
            let d = edit_if(clock.hide_seconds != base.date.hide_seconds,
                ChangeView::SetValue("date"@, "hide_seconds"@, TomlValueView::Bool(clock.hide_seconds)));
            lemma_append_four(general_part, a, b, c, d);
        }
        changes
    }
}

/// Every command keeps the invariant of a running clock.
pub proof fn lemma_commands_keep_wf(s: State, cmd: Command)
    requires
        state_wf(s),
    ensures
        state_wf(spec_apply_command(s, cmd).0),
{
}

/// The toggle keys undo themselves, and the two color keys undo each other.
pub proof fn lemma_toggles_undo(s: State)
    requires
        state_wf(s),
    ensures
        spec_apply_command(spec_apply_command(s, Command::ToggleBlink).0, Command::ToggleBlink).0 == s,
        spec_apply_command(spec_apply_command(s, Command::ToggleSeconds).0, Command::ToggleSeconds).0 == s,
        spec_apply_command(spec_apply_command(s, Command::TogglePlain).0, Command::TogglePlain).0 == s,
        spec_apply_command(spec_apply_command(s, Command::NextColor).0, Command::PrevColor).0 == s,
        spec_apply_command(spec_apply_command(s, Command::PrevColor).0, Command::NextColor).0 == s,
{
    crate::color::lemma_color_cycle_inverse(s.clock.color);
}

/// A timer chosen on the command line ends the program when it runs out
/// exactly when its arguments ask for that: whenever the mode is chosen, it
/// is a timer that carries the arguments' kill flag; with no duration given
/// it is always chosen.
pub proof fn lemma_timer_mode_keeps_kill(args: TimerArgs, config: Config, r: Result<ClockMode, Error>)
    requires
        clock_mode_matches(Some(Mode::Timer(args)), config, r),
    ensures
        r is Ok ==> (r matches Ok(ClockMode::Counter(CounterType::Timer { duration_secs, kill })) && kill == args.kill),
        args.seconds is None && args.minutes is None && args.hours is None ==> r is Ok,
{
}

/// Two timers chosen from arguments that differ only in the kill flag
/// differ only in the kill flag.
pub proof fn lemma_kill_flag_alone(
    a1: TimerArgs,
    a2: TimerArgs,
    config: Config,
    r1: Result<ClockMode, Error>,
    r2: Result<ClockMode, Error>,
)
    requires
        a1.seconds == a2.seconds && a1.minutes == a2.minutes && a1.hours == a2.hours,
        clock_mode_matches(Some(Mode::Timer(a1)), config, r1),
        clock_mode_matches(Some(Mode::Timer(a2)), config, r2),
    ensures
        r1 is Ok <==> r2 is Ok,
        r1 matches Ok(ClockMode::Counter(CounterType::Timer { duration_secs: d1, kill: k1 }))
            ==> r2 matches Ok(ClockMode::Counter(CounterType::Timer { duration_secs: d2, kill: k2 }))
            && d1 == d2 && k1 == a1.kill && k2 == a2.kill,
{
}

/// The pause and restart commands act on every counter, stopwatch or timer
/// alike, and on nothing else.
pub proof fn lemma_counter_commands(s: State)
    ensures
        s.clock.mode is Counter ==> spec_apply_command(s, Command::TogglePause).1 == Action::TogglePause,
        s.clock.mode is Counter ==> spec_apply_command(s, Command::RestartCounter).1 == Action::RestartCounter,
        !(s.clock.mode is Counter) ==> spec_apply_command(s, Command::TogglePause).1 == Action::Nothing,
        !(s.clock.mode is Counter) ==> spec_apply_command(s, Command::RestartCounter).1 == Action::Nothing,
{
}

/// What the pause and restart commands do does not depend on which counter
/// runs.
pub proof fn lemma_counter_kind_irrelevant(s: State, t1: CounterType, t2: CounterType, cmd: Command)
    requires
        cmd == Command::TogglePause || cmd == Command::RestartCounter,
    ensures
        ({
            let s1 = State { clock: Clock { mode: ClockMode::Counter(t1), ..s.clock }, ..s };
            let s2 = State { clock: Clock { mode: ClockMode::Counter(t2), ..s.clock }, ..s };
            spec_apply_command(s1, cmd).1 == spec_apply_command(s2, cmd).1
        }),
{
}

/// On a running counter, p or P (alone or with Shift) pauses or resumes it,
/// and r or R restarts it.
pub proof fn lemma_counter_keys(s: State, k: KeyEvent)
    requires
        s.clock.mode is Counter,
        plain_or_shifted_press(k),
    ensures
        spec_apply_command(s, spec_command(with_char(k, 'p'))).1 == Action::TogglePause,
        spec_apply_command(s, spec_command(with_char(k, 'P'))).1 == Action::TogglePause,
        spec_apply_command(s, spec_command(with_char(k, 'r'))).1 == Action::RestartCounter,
        spec_apply_command(s, spec_command(with_char(k, 'R'))).1 == Action::RestartCounter,
{
    lemma_letter_bindings(k);
}

/// Quitting, asking for a reload, the counter keys and unbound keys leave
/// the settings as they are.
pub proof fn lemma_passive_commands(s: State, cmd: Command)
    requires
        cmd == Command::Quit || cmd == Command::ReloadConfig || cmd == Command::TogglePause
            || cmd == Command::RestartCounter || cmd == Command::Ignore,
    ensures
        spec_apply_command(s, cmd).0 == s,
{
}

/// Settings that were just read from a configuration differ from it in
/// nothing, so there is nothing to write back.
pub proof fn lemma_fresh_settings_have_no_changes(config: Config, mode: ClockMode)
    ensures
        spec_pending_changes(clock_from_config(config, mode), config) == Seq::<ChangeView>::empty(),
{
    assert(spec_pending_changes(clock_from_config(config, mode), config) =~= Seq::<ChangeView>::empty());
}

/// The left part of the status bar: the key bindings.
pub open spec fn statusbar_left() -> Seq<char> {
    "\u{2014} b: Blink | s: Secs | c: Color | -/+: Interval | h: Hide "@
}

/// The right part of the status bar: "auto", or the interval in milliseconds.
pub open spec fn statusbar_right(interval_auto: bool, interval_ms: u64) -> Seq<char> {
    if interval_auto {
        " auto \u{2014}"@
    } else {
        " "@ + decimal(interval_ms as nat) + "ms \u{2014}"@
    }
}

/// How many dashes fill the bar between its two parts: the rest of the
/// width, none when the parts alone are wider.
pub open spec fn statusbar_fill(interval_auto: bool, interval_ms: u64, width: u16) -> nat {
    let used = statusbar_left().len() + statusbar_right(interval_auto, interval_ms).len();
    if width >= used {
        (width - used) as nat
    } else {
        0
    }
}

/// The status bar as written to the terminal: move to column 1 of row
/// `height`, switch to dim text, the two parts with dashes between, reset.
pub open spec fn spec_statusbar(interval_auto: bool, interval_ms: u64, width: u16, height: u16) -> Seq<char> {
    "\x1B["@ + decimal(height as nat) + ";1H\x1B[2m"@ + statusbar_left()
        + repeat_char('\u{2014}', statusbar_fill(interval_auto, interval_ms, width))
        + statusbar_right(interval_auto, interval_ms) + "\x1B[0m"@
}

/// The visible part of the status bar is exactly as wide as the terminal
/// whenever the terminal is wide enough for both parts; otherwise it is the
/// two parts alone, with no dashes.
pub proof fn lemma_statusbar_width(interval_auto: bool, interval_ms: u64, width: u16)
    ensures
        ({
            let used = statusbar_left().len() + statusbar_right(interval_auto, interval_ms).len();
            let visible = statusbar_left() + repeat_char('\u{2014}', statusbar_fill(interval_auto, interval_ms, width))
                + statusbar_right(interval_auto, interval_ms);
            &&& width >= used ==> visible.len() == width
            &&& width < used ==> visible.len() == used
        }),
{
}

impl State {
    /// The text of the status bar for a terminal of the given size.
    pub fn render_statusbar(&self, width: u16, height: u16) -> (r: String)
        ensures
            r@ == spec_statusbar(self.clock.interval_auto, self.clock.interval_ms, width, height),
    {
        let mut right = String::new();
        if self.clock.interval_auto {
            right.append(" auto \u{2014}");
        } else {
            right.append(" ");
            push_decimal(&mut right, self.clock.interval_ms);
            right.append("ms \u{2014}");
        }
        assert(right@ =~= statusbar_right(self.clock.interval_auto, self.clock.interval_ms));
        let left = "\u{2014} b: Blink | s: Secs | c: Color | -/+: Interval | h: Hide ";
        let left_len = left.unicode_len();
        let right_len = right.as_str().unicode_len();
        let total = width as usize;
        let fill_count = total.saturating_sub(left_len.saturating_add(right_len));

        let mut out = String::new();
        out.append("\x1B[");
        push_decimal(&mut out, height as u64);
        out.append(";1H\x1B[2m");
        out.append(left);
        push_repeated(&mut out, '\u{2014}', fill_count);
        out.append(right.as_str());
        out.append("\x1B[0m");
        out
    }
}

/// The edits of the `[general]` table.
pub open spec fn general_edits(clock: Clock, base: Config) -> Seq<ChangeView> {
    let general = "general"@;
    edit_if(clock.color != base.general.color,
        ChangeView::SetValue(general, "color"@, TomlValueView::Str(spec_color_name(clock.color))))
    + edit_if(clock.blink != base.general.blink,
        ChangeView::SetValue(general, "blink"@, TomlValueView::Bool(clock.blink)))
    + edit_if(clock.bold != base.general.bold,
        ChangeView::SetValue(general, "bold"@, TomlValueView::Bool(clock.bold)))
    + interval_edit(clock, base)
}

/// The edits of the `[position]` and `[date]` tables.
pub open spec fn layout_edits(clock: Clock, base: Config) -> Seq<ChangeView> {
    edit_if(clock.x_pos != base.position.x,
        ChangeView::SetValue("position"@, "horizontal"@, TomlValueView::Str(spec_toml_name(clock.x_pos))))
    + edit_if(clock.y_pos != base.position.y,
        ChangeView::SetValue("position"@, "vertical"@, TomlValueView::Str(spec_toml_name(clock.y_pos))))
    + edit_if(clock.use_12h != base.date.use_12h,
        ChangeView::SetValue("date"@, "use_12h"@, TomlValueView::Bool(clock.use_12h)))
    + edit_if(clock.hide_seconds != base.date.hide_seconds,
        ChangeView::SetValue("date"@, "hide_seconds"@, TomlValueView::Bool(clock.hide_seconds)))
}

/// Appending four edit lists one after the other is appending their concatenation.
pub(crate) proof fn lemma_append_four(g: Seq<ChangeView>, a: Seq<ChangeView>, b: Seq<ChangeView>, c: Seq<ChangeView>, d: Seq<ChangeView>)
    ensures
        g + a + b + c + d == g + (a + b + c + d),
{
    vstd::seq_lib::lemma_concat_associative(g, a, b);
    vstd::seq_lib::lemma_concat_associative(g, a + b, c);
    vstd::seq_lib::lemma_concat_associative(g, a + b + c, d);
}


} // verus!
