//! Replace the left-click "launch the configured action" behavior with an
//! in-panel popup listing the top process users of each panel metric.
//!
//! Upstream always spawns the `leftclickstatus` command on left-click and
//! offers no GSetting to change that, so this source patch:
//!
//! 1. Adds the `PopupMenu` import next to the existing `PanelMenu` import.
//! 2. Injects a marker-guarded block before `_clickManager` holding the click
//!    handling, a background sampler, and the menu renderer. The sampler keeps
//!    a rolling per-process-name history and each popup section names the
//!    processes that used the most of one metric across the trailing window
//!    (default 10 minutes).
//! 3. Rewires the Enter/Space key activation to open the popup and drops the
//!    left-click `_launchPrimaryAction` call from `_clickManager`.
//! 4. Updates the accessibility tooltip to describe the new behavior.
//! 5. Starts the sampler in `_init` and stops it in `destroy`, so history
//!    exists before the first click and no GLib source outlives the extension.
//!
//! The window is baked in by `--window-minutes` and can be overridden live by
//! the `U2TSSM` environment variable inside the injected code.
//!
//! The edits are guarded by marker comments and fail fast when the expected
//! upstream snippets are absent.

use vstd::prelude::*;
use crate::settings::{decimal, decimal_exec, digit_char};
use crate::text::{
    chars_string, contains, contains_str, find, find_exec, find_from, find_from_exec, lemma_find_from,
    matches_at, push_all, push_range, push_str, replace_all, replace_all_exec, replace_first,
    replace_first_exec, replace_first_str, str_chars, chars_eq, lemma_replace_all_removes,
};

verus! {

/// Default rolling window, in minutes, baked into a fresh patch.
pub const DEFAULT_WINDOW_MINUTES: u32 = 10;

/// Largest window the injected JavaScript accepts, mirrored by the `U2TSSM`
/// bounds check inside the methods template so both reject the same values.
pub const MAX_WINDOW_MINUTES: u32 = 1440;

/// Marker comment proving the popup methods are already injected. It doubles
/// as the start of the injected block, so the whole body can be re-rendered in
/// place when the patcher changes shape or the window is reconfigured.
pub const METHODS_START: &'static str = "    // ── Process popup: top resource users per metric over a rolling window ──";

/// Marker text carried inside [`METHODS_START`]; the installer greps the
/// installed `extension.js` for exactly this string.
pub const MARKER: &'static str = "Process popup: top resource users per metric over a rolling window";

/// Block header written by the first generation of this patcher, which showed
/// a single instantaneous CPU/RAM list. Located so an installed tree upgrades
/// in place instead of gaining a second, duplicated block.
pub const LEGACY_METHODS_START: &'static str = "    // ── Process popup: total CPU/RAM aggregated per process name ──";

pub const PANEL_MENU_IMPORT: &'static str = r#"import * as PanelMenu from "resource:///org/gnome/shell/ui/panelMenu.js";"#;

pub const POPUP_MENU_IMPORT: &'static str = r#"import * as PopupMenu from "resource:///org/gnome/shell/ui/popupMenu.js";"#;

pub const CLICK_MANAGER_ANCHOR: &'static str = "    _clickManager(actor, event) {";

/// Placeholder replaced by the configured window before injection.
pub const WINDOW_PLACEHOLDER: &'static str = "__TOP_WINDOW_MINUTES__";

/// Popup methods injected before `_clickManager`, kept in consecutive
/// parts; [`template_text`] is their concatenation. The block begins with
/// [`METHODS_START`].
pub const METHODS_TEMPLATE_1: &'static str = r##"    // ── Process popup: top resource users per metric over a rolling window ──
    // Left-click opens this menu instead of launching the configured action.
    // A background sampler keeps a per-process-name history of CPU, RAM, disk
    // IO, network IO, GPU and VRAM use, and each section lists the processes
    // that consumed the most of one metric across the trailing window.
    //
    // Each row carries two columns. "now" is the live reading, refreshed on
    // the panel's own refresh-time setting for as long as the menu stays
    // open, and answers "what is this using right now?". "avg" is the
    // trailing-window mean, and answers "what has been eating this lately?".
    //
    // Rows are ranked by "now", so each section always names the processes
    // currently using the metric — including one that just started and has no
    // history yet. Because that ranking changes on every tick, the rows are
    // fixed slots whose text is rewritten in place rather than menu items
    // rebuilt underneath the pointer. A section keeps every slot it was built
    // with even when nothing is using the metric, so an idle GPU or an
    // unplugged cable leaves a gap instead of collapsing the popup and moving
    // everything below it.
    //
    // PanelMenu.Button.vfunc_event toggles this.menu on every BUTTON_PRESS,
    // and it runs before the button-press-event handler (_clickManager). With
    // both toggling, the two cancelled out as soon as the menu held rows: the
    // base class opened it and _clickManager closed it again, so the popup
    // stopped responding after its first use. Own the toggle here instead —
    // once, for button 1 / touch only — and populate before opening, because
    // PopupMenu.open() bails out while the menu is still empty.
    vfunc_event(event) {
      const type = event.type();
      const isPrimaryPress =
        type === Clutter.EventType.TOUCH_BEGIN ||
        (type === Clutter.EventType.BUTTON_PRESS && event.get_button() === 1);

      if (this.menu && isPrimaryPress) {
        this._toggleProcessMenu();
      }

      return Clutter.EVENT_PROPAGATE;
    }

    _toggleProcessMenu() {
      if (!this.menu) {
        return;
      }

      if (this.menu.isOpen) {
        this.menu.close();
        this._topLiveStop();
        return;
      }

      this._refreshProcessMenu();
      this.menu.open();
      this._topLiveStart();
    }

    // ── Rolling window configuration ─────────────────────────────────────
    // U2TSSM is this repository's name condensed to its initials (Ubuntu 2404
    // Taskbar System Status Monitor). It is read live, so exporting it into
    // the session changes the window without re-patching; the baked-in default
    // below is written at install time by
"##;

pub const METHODS_TEMPLATE_2: &'static str = r##"    // `rm-monitor patch-process-popup --window-minutes N`.
    _topUsersWindowMinutes() {
      const patchedMinutes = __TOP_WINDOW_MINUTES__;
      const raw = GLib.getenv("U2TSSM");
      const parsed = raw === null ? Number.NaN : Number.parseInt(raw, 10);

      if (Number.isFinite(parsed) && parsed >= 1 && parsed <= 1440) {
        return parsed;
      }

      return patchedMinutes;
    }

    _topSampleSeconds() {
      return 10;
    }

    _topBucketSeconds() {
      // One bucket per window-minute keeps the bucket count near 60 whatever
      // the window is, so memory stays bounded; the floor keeps eviction
      // fine-grained for very short windows.
      return Math.max(10, this._topUsersWindowMinutes());
    }

    // ── Sampler lifecycle ────────────────────────────────────────────────
    _topUsersStart() {
      if (this._topSampleTimer) {
        return;
      }

      this._topBuckets = [];
      this._topCurrentBucket = null;
      this._topProcPrev = new Map();
      this._topProcNames = new Map();
      this._topWalk = null;
      this._topWalkSource = null;
      this._topDecoder = null;
      this._topCpuTotalPrev = 0;
      this._topNetPrev = new Map();
      this._topNetSampledAt = 0;
      this._topLastSampleAt = 0;
      this._topGpuBusy = false;
      this._topNetBusy = false;
      this._topGpuFeedPending = false;
      this._topNetFeedPending = false;
      this._topLiveTimer = null;
      this._topLiveSections = [];
      this._topLiveProc = new Map();
      this._topLiveExtra = new Map();
      this._topAverages = new Map();
      this._topLivePrev = new Map();
      this._topLiveCpuPrev = 0;
      this._topLiveAt = 0;
      this._topMemTotalKb = this._topReadMemTotalKb();
      this._topGpuProgram = GLib.find_program_in_path("nvidia-smi");
      this._topNetProgram = GLib.find_program_in_path("ss");

      this._topSampleTimer = GLib.timeout_add_seconds(
        GLib.PRIORITY_LOW,
        this._topSampleSeconds(),
        this._topSampleTick.bind(this)
      );
      this._topSampleTick();
    }

    _topUsersStop() {
      this._topLiveStop();

      if (this._topSampleTimer) {
        GLib.Source.remove(this._topSampleTimer);
        this._topSampleTimer = null;
      }

      // An in-flight chunked /proc walk owns an idle source of its own.
      if (this._topWalkSource) {
        GLib.Source.remove(this._topWalkSource);
        this._topWalkSource = null;
      }
      this._topWalk = null;
    }

    _topSampleTick() {
      if (this._destroyed) {
        this._topSampleTimer = null;
        return GLib.SOURCE_REMOVE;
      }

      // A sampler that throws must not take the timer — and with it every
      // later sample — down with it.
      try {
        this._topRotateBuckets();
"##;

pub const METHODS_TEMPLATE_3: &'static str = r##"        this._topSampleProcesses();
        this._topSampleGpu();
        this._topSampleNetwork();
      } catch (error) {
        this._logger.error(
          `[Resource_Monitor] Top-users sampling failed: ${error}`
        );
      }

      return GLib.SOURCE_CONTINUE;
    }

    _topRotateBuckets() {
      const now = GLib.get_monotonic_time() / 1000000;
      const bucketSeconds = this._topBucketSeconds();

      if (
        !this._topCurrentBucket ||
        now - this._topCurrentBucket.at >= bucketSeconds
      ) {
        this._topCurrentBucket = { at: now, samples: 0, totals: new Map() };
        this._topBuckets.push(this._topCurrentBucket);
      }

      const maxBuckets =
        Math.ceil((this._topUsersWindowMinutes() * 60) / bucketSeconds) + 1;
      while (this._topBuckets.length > maxBuckets) {
        this._topBuckets.shift();
      }
    }

    _topAddSample(name, metric, value) {
      const bucket = this._topCurrentBucket;
      if (!bucket || !name || !(value > 0)) {
        return;
      }

      let entry = bucket.totals.get(name);
      if (!entry) {
        // Bound the per-bucket map: a burst of uniquely named short-lived
        // processes must not grow the Shell's heap without limit.
        if (bucket.totals.size >= 256) {
          return;
        }
        entry = { cpu: 0, ram: 0, disk: 0, net: 0, gpu: 0, vram: 0 };
        bucket.totals.set(name, entry);
      }

      entry[metric] += value;
    }

    // ── /proc sampling (CPU, RAM, disk IO) ───────────────────────────────
    // A full sweep touches two files per process — roughly 1600 reads on a
    // busy desktop, ~25 ms — which is several dropped frames if it runs in one
    // go on the Shell's main loop. The sweep is therefore split into small
    // chunks driven by low-priority idle callbacks, so it only ever runs
    // between frames.
    _topReadTextFile(path) {
      try {
        const [ok, bytes] = GLib.file_get_contents(path);
        if (!ok) {
          return null;
        }
        // One decoder for the whole sweep: allocating one per file cost more
        // than the reads themselves.
        this._topDecoder ??= new TextDecoder();
        return this._topDecoder.decode(bytes);
      } catch (error) {
        // /proc entries routinely vanish between readdir and read.
        return null;
      }
    }

    _topReadMemTotalKb() {
      const meminfo = this._topReadTextFile("/proc/meminfo");
      const match = meminfo === null ? null : /MemTotal:\s+(\d+)/.exec(meminfo);
      return match ? Number.parseInt(match[1], 10) : 0;
    }

    _topReadCpuTotalJiffies() {
      const stat = this._topReadTextFile("/proc/stat");
      if (stat === null) {
        return 0;
      }

      const fields = stat.split("\n", 1)[0].trim().split(/\s+/);
"##;

pub const METHODS_TEMPLATE_4: &'static str = r##"      let total = 0;
      for (let i = 1; i < fields.length; i++) {
        const jiffies = Number.parseInt(fields[i], 10);
        if (Number.isFinite(jiffies)) {
          total += jiffies;
        }
      }

      return total;
    }

    _topReadProcIoBytes(pid) {
      // Unreadable for processes owned by other users. -1 means "unknown",
      // never "idle", so the next delta is skipped instead of counted.
      const io = this._topReadTextFile(`/proc/${pid}/io`);
      if (io === null) {
        return -1;
      }

      let total = 0;
      let found = 0;
      for (const line of io.split("\n")) {
        // "cancelled_write_bytes" deliberately does not match either prefix.
        if (line.startsWith("read_bytes:") || line.startsWith("write_bytes:")) {
          const value = Number.parseInt(line.slice(line.indexOf(":") + 1), 10);
          if (Number.isFinite(value)) {
            total += value;
            found += 1;
          }
        }
      }

      return found === 2 ? total : -1;
    }

    _topListPids() {
      let dir;
      try {
        dir = GLib.Dir.open("/proc", 0);
      } catch (error) {
        return [];
      }

      const pids = [];
      let entry;
      while ((entry = dir.read_name()) !== null) {
        // Every /proc entry starting with a digit is a PID, and a charCode
        // test is markedly cheaper than a regex across ~800 entries.
        const first = entry.charCodeAt(0);
        if (first >= 48 && first <= 57) {
          pids.push(entry);
        }
      }
      dir.close();

      return pids;
    }

    // One walker serves both cadences: the 10 s sweep that feeds the rolling
    // buckets and the live sweep behind the "now" column. `live` only picks
    // which delta state the sweep advances — each keeps its own previous
    // reading and its own timestamps, so neither distorts the other's
    // interval, and neither can be ranked from the other's numbers.
    _topBeginWalk(live) {
      if (this._topWalk) {
        // The previous sweep has not finished. Skipping keeps one consistent
        // set of deltas instead of interleaving two walks over the same state.
        return false;
      }

      const pids = this._topListPids();
      if (pids.length === 0) {
        return false;
      }

      const now = GLib.get_monotonic_time() / 1000000;
      const since = live ? this._topLiveAt : this._topLastSampleAt;
      const elapsed = since > 0 ? now - since : 0;
      const cpuTotal = this._topReadCpuTotalJiffies();
      const cpuPrev = live ? this._topLiveCpuPrev : this._topCpuTotalPrev;

      if (live) {
        this._topLiveAt = now;
        this._topLiveCpuPrev = cpuTotal;
      } else {
        this._topLastSampleAt = now;
        this._topCpuTotalPrev = cpuTotal;
      }

"##;

pub const METHODS_TEMPLATE_5: &'static str = r##"      this._topWalk = {
        live,
        pids,
        index: 0,
        elapsed,
        cpuDelta: cpuTotal - cpuPrev,
        previous: live ? this._topLivePrev : this._topProcPrev,
        current: new Map(),
        names: new Map(),
        totals: new Map(),
      };
      this._topWalkSource = GLib.idle_add(
        GLib.PRIORITY_LOW,
        this._topWalkStep.bind(this)
      );

      return true;
    }

    _topSampleProcesses() {
      this._topBeginWalk(false);
    }

    _topWalkStep() {
      const walk = this._topWalk;
      if (this._destroyed || !walk) {
        this._topWalk = null;
        this._topWalkSource = null;
        return GLib.SOURCE_REMOVE;
      }

      // ~2 ms of work per callback: small enough to disappear between frames.
      const end = Math.min(walk.pids.length, walk.index + 128);
      try {
        for (; walk.index < end; walk.index++) {
          this._topWalkOne(walk, walk.pids[walk.index]);
        }
      } catch (error) {
        this._logger.error(
          `[Resource_Monitor] Top-users /proc walk failed: ${error}`
        );
        this._topWalk = null;
        this._topWalkSource = null;
        return GLib.SOURCE_REMOVE;
      }

      if (walk.index < walk.pids.length) {
        return GLib.SOURCE_CONTINUE;
      }

      this._topProcNames = walk.names;

      if (walk.live) {
        this._topLivePrev = walk.current;
        this._topLiveProc = walk.totals;
        this._topRenderLiveValues();
      } else {
        this._topProcPrev = walk.current;

        // Only count a sample once deltas exist, so the very first sweep does
        // not dilute every average by one empty slot.
        if (this._topCurrentBucket && walk.previous.size > 0) {
          this._topCurrentBucket.samples += 1;
        }

        // Keep the "avg" column moving while the menu stays open. Aggregating
        // costs a pass over every bucket, so it is done on the 10 s sweep that
        // can actually change the answer, never on a live tick.
        if (this.menu && this.menu.isOpen) {
          this._topAverages = this._topAggregate().totals;
        }
      }

      this._topWalk = null;
      this._topWalkSource = null;
      return GLib.SOURCE_REMOVE;
    }

    _topWalkOne(walk, pid) {
      const stat = this._topReadTextFile(`/proc/${pid}/stat`);
      if (stat === null) {
        return;
      }

      // comm is parenthesised and may itself contain spaces or brackets, so
      // the *last* ")" ends it and every numeric field follows from there.
      const opened = stat.indexOf("(");
      const closed = stat.lastIndexOf(")");
      if (opened < 0 || closed < opened) {
        return;
      }

      const name = stat.slice(opened + 1, closed);
"##;

pub const METHODS_TEMPLATE_6: &'static str = r##"      // /proc/pid/stat is single-space separated from the state field on, so
      // fields[i] is field i + 3: utime 14, stime 15, starttime 22, rss 24.
      const fields = stat.slice(closed + 2).split(" ");
      if (fields.length < 22) {
        return;
      }

      const jiffies =
        Number.parseInt(fields[11], 10) + Number.parseInt(fields[12], 10);
      const rssPages = Number.parseInt(fields[21], 10);
      const io = this._topReadProcIoBytes(pid);
      // Key on start time too: PIDs are recycled, and a recycled PID's
      // counters restart from zero.
      const key = `${pid}:${fields[19]}`;

      walk.current.set(key, { jiffies, io });
      walk.names.set(pid, name);

      // A live sweep ranks the popup; a bucket sweep feeds the averages. Same
      // arithmetic either way, so the destination is the only thing that
      // changes here.
      const record = (metric, value) => {
        if (!walk.live) {
          this._topAddSample(name, metric, value);
          return;
        }

        let entry = walk.totals.get(name);
        if (!entry) {
          entry = { cpu: 0, ram: 0, disk: 0 };
          walk.totals.set(name, entry);
        }
        entry[metric] += value;
      };

      // /proc counts RSS in pages; 4 KiB is the page size on every platform
      // this extension supports (x86_64 / aarch64).
      const ram =
        this._topMemTotalKb > 0 && Number.isFinite(rssPages)
          ? (100 * rssPages * 4) / this._topMemTotalKb
          : null;

      // RAM is a level, not a delta, so a live sweep can rank it from its very
      // first reading. The bucket sweep still waits for deltas: adding a RAM
      // sample to a bucket whose sample count has not advanced would inflate
      // that minute's average.
      if (walk.live && ram !== null) {
        record("ram", ram);
      }

      const before = walk.previous.get(key);
      if (before === undefined) {
        return;
      }

      if (walk.cpuDelta > 0 && Number.isFinite(jiffies)) {
        record("cpu", (100 * (jiffies - before.jiffies)) / walk.cpuDelta);
      }

      if (!walk.live && ram !== null) {
        record("ram", ram);
      }

      if (walk.elapsed > 0 && io >= 0 && before.io >= 0) {
        record("disk", Math.max(0, io - before.io) / walk.elapsed);
      }
    }

    // ── Subprocess sampling (GPU, network) ───────────────────────────────
    _topSpawnAsync(argv, onOutput) {
      let proc;
      try {
        proc = new Gio.Subprocess({
          argv,
          flags:
            Gio.SubprocessFlags.STDOUT_PIPE | Gio.SubprocessFlags.STDERR_SILENCE,
        });
        proc.init(null);
      } catch (error) {
        onOutput(null);
        return;
      }

      proc.communicate_utf8_async(null, this._ioCancellable, (p, res) => {
"##;

pub const METHODS_TEMPLATE_7: &'static str = r##"        let stdout = "";
        try {
          [, stdout] = p.communicate_utf8_finish(res);
        } catch (error) {
          onOutput(null);
          return;
        }

        if (this._destroyed) {
          return;
        }

        try {
          onOutput(stdout ?? "");
        } catch (error) {
          this._logger.error(
            `[Resource_Monitor] Top-users sampler failed on ${argv[0]}: ${error}`
          );
        }
      });
    }

    // `feed` marks a run whose reading belongs in the rolling buckets. The
    // live column spawns extra runs with feed=false: those refresh the "now"
    // column only, because contributing them would silently weight the
    // averages towards whenever the popup happened to be open. A feeding run
    // that arrives while a live run is still in flight is not dropped — the
    // request is held and handed to the next run to complete, so the bucket
    // cadence survives having the popup open.
    _topSampleGpu(feed = true) {
      if (feed) {
        this._topGpuFeedPending = true;
      }

      if (this._topGpuBusy || !this._topGpuProgram) {
        return;
      }

      const feeding = this._topGpuFeedPending === true;
      this._topGpuFeedPending = false;
      this._topGpuBusy = true;
      this._topSpawnAsync(
        [this._topGpuProgram, "pmon", "-c", "1", "-s", "um"],
        (stdout) => {
          this._topGpuBusy = false;
          if (stdout !== null) {
            this._topRecordGpuSample(stdout, feeding);
          }
        }
      );
    }

    _topRecordGpuSample(stdout, feeding = true) {
      const live = new Map();
      // `nvidia-smi pmon` column sets differ between driver releases, so the
      // header row — not a fixed offset — decides where pid / sm / fb live.
      let columns = null;

      for (const line of stdout.split("\n")) {
        if (line.startsWith("#")) {
          const header = line.slice(1).trim().split(/\s+/);
          const found = {
            pid: header.indexOf("pid"),
            sm: header.indexOf("sm"),
            fb: header.indexOf("fb"),
          };
          if (found.pid >= 0 && found.sm >= 0 && found.fb >= 0) {
            columns = found;
          }
          continue;
        }

        const fields = line.trim().split(/\s+/);
        if (columns === null || fields.length <= columns.fb) {
          continue;
        }

        // Prefer the comm already collected from /proc: pmon truncates its
        // command column and can carry arguments, and every other section
        // keys off comm.
        const name =
          this._topProcNames.get(fields[columns.pid]) ??
          fields[fields.length - 1];
        const sm = Number.parseFloat(fields[columns.sm]);
        const fb = Number.parseFloat(fields[columns.fb]);

"##;

pub const METHODS_TEMPLATE_8: &'static str = r##"        for (const [metric, value] of [
          ["gpu", sm],
          ["vram", fb],
        ]) {
          if (!Number.isFinite(value)) {
            continue;
          }

          if (feeding) {
            this._topAddSample(name, metric, value);
          }

          let seen = live.get(name);
          if (!seen) {
            seen = { gpu: 0, vram: 0 };
            live.set(name, seen);
          }
          seen[metric] += value;
        }
      }

      this._topLiveMerge(live, ["gpu", "vram"]);
    }

    // See _topSampleGpu for what `feed` means.
    _topSampleNetwork(feed = true) {
      if (feed) {
        this._topNetFeedPending = true;
      }

      if (this._topNetBusy || !this._topNetProgram) {
        return;
      }

      const feeding = this._topNetFeedPending === true;
      this._topNetFeedPending = false;
      this._topNetBusy = true;
      this._topSpawnAsync([this._topNetProgram, "-tnpHi"], (stdout) => {
        this._topNetBusy = false;
        if (stdout !== null) {
          this._topRecordNetworkSample(stdout, feeding);
        }
      });
    }

    _topRecordNetworkSample(stdout, feeding = true) {
      // `ss -i` prints one socket line naming its owning process, followed by
      // an indented stats line carrying that socket's cumulative byte
      // counters. Only TCP sockets report bytes, hence the -t query.
      const cumulative = new Map();
      let owner = null;

      for (const line of stdout.split("\n")) {
        if (line === "") {
          continue;
        }

        if (!/^\s/.test(line)) {
          const match = /users:\(\("([^"]+)"/.exec(line);
          owner = match ? match[1] : null;
          continue;
        }

        if (owner === null) {
          continue;
        }

        const sent = /bytes_sent:(\d+)/.exec(line);
        const received = /bytes_received:(\d+)/.exec(line);
        const bytes =
          (sent ? Number.parseInt(sent[1], 10) : 0) +
          (received ? Number.parseInt(received[1], 10) : 0);

        cumulative.set(owner, (cumulative.get(owner) ?? 0) + bytes);
        owner = null;
      }

      const now = GLib.get_monotonic_time() / 1000000;
      const elapsed =
        this._topNetSampledAt > 0 ? now - this._topNetSampledAt : 0;
      this._topNetSampledAt = now;

      const live = new Map();

      if (elapsed > 0) {
        for (const [name, bytes] of cumulative) {
          const before = this._topNetPrev.get(name);
          // Closing sockets shrink the sum; a drop means "nothing measurable
          // this round", not a negative rate.
          if (before !== undefined && bytes > before) {
            const rate = (bytes - before) / elapsed;
            if (feeding) {
              this._topAddSample(name, "net", rate);
            }
"##;

pub const METHODS_TEMPLATE_9: &'static str = r##"            live.set(name, { net: rate });
          }
        }
      }

      this._topLiveMerge(live, ["net"]);
      this._topNetPrev = cumulative;
    }

    // ── Live ("now") sampling, only while the menu is open ───────────────
    // The live column has to tick far faster than the 10 s bucket sampler.
    // Rather than speed that sampler up — which would distort every rolling
    // average — this keeps its own delta state and writes to its own store,
    // and it only exists between menu open and menu close.
    _topLiveIntervalMs() {
      // The popup has its own cadence, deliberately independent of the panel's
      // refresh-time setting: the bar can flick at 250 ms because it shows a
      // couple of numbers in place, while a whole re-ranked table that fast is
      // unreadable. U2TSSM_LIVE_MS overrides the default in milliseconds
      // (100–60000) and is read whenever the popup opens, so exporting it into
      // the session retunes the live column without re-patching.
      const raw = GLib.getenv("U2TSSM_LIVE_MS");
      const parsed = raw === null ? Number.NaN : Number.parseInt(raw, 10);

      if (Number.isFinite(parsed) && parsed >= 100 && parsed <= 60000) {
        return parsed;
      }

      return 1000;
    }

    _topLiveStart() {
      if (this._topLiveTimer) {
        return;
      }

      // Deltas from before the popup was opened would span the whole idle
      // gap, so the first tick after opening only establishes a baseline.
      this._topLivePrev = new Map();
      this._topLiveCpuPrev = this._topReadCpuTotalJiffies();
      this._topLiveAt = 0;

      this._topLiveTimer = GLib.timeout_add(
        GLib.PRIORITY_DEFAULT_IDLE,
        this._topLiveIntervalMs(),
        this._topLiveTick.bind(this)
      );
    }

    _topLiveStop() {
      if (this._topLiveTimer) {
        GLib.Source.remove(this._topLiveTimer);
        this._topLiveTimer = null;
      }
    }

    _topLiveTick() {
      // Closing the menu from anywhere — Escape, a click elsewhere, another
      // panel button — does not route through _toggleProcessMenu, so the
      // timer also retires itself as soon as the menu is gone.
      if (this._destroyed || !this.menu || !this.menu.isOpen) {
        this._topLiveTimer = null;
        return GLib.SOURCE_REMOVE;
      }

      try {
        this._topSampleLive();
        // These cost a subprocess and cannot answer at the panel's rate; the
        // busy guards throttle them to however fast the tool actually
        // returns, and feed=false keeps them out of the buckets.
        this._topSampleGpu(false);
        this._topSampleNetwork(false);
        this._topRenderLiveValues();
      } catch (error) {
        this._logger.error(
"##;

pub const METHODS_TEMPLATE_10: &'static str = r##"          `[Resource_Monitor] Top-users live sampling failed: ${error}`
        );
      }

      return GLib.SOURCE_CONTINUE;
    }

    // Replace one metric group in the live snapshot. Names missing from the
    // new reading have stopped using that resource, so they drop to zero
    // instead of keeping the last value they were seen with.
    _topLiveMerge(values, keys) {
      const store = this._topLiveExtra;
      if (!store) {
        return;
      }

      for (const [name, entry] of store) {
        if (!values.has(name)) {
          for (const key of keys) {
            entry[key] = 0;
          }
        }
      }

      for (const [name, sample] of values) {
        let entry = store.get(name);
        if (!entry) {
          // Same heap bound as the buckets.
          if (store.size >= 256) {
            continue;
          }
          entry = { net: 0, gpu: 0, vram: 0 };
          store.set(name, entry);
        }

        for (const key of keys) {
          entry[key] = sample[key] ?? 0;
        }
      }
    }

    // Rank the popup from a full sweep, not from the rows already on screen:
    // a process that starts hammering the disk now has no history to be found
    // by, so a filtered read could never surface it. Measured at ~10 ms for
    // ~700 processes, and the walker hands that out in ~2 ms slices between
    // frames, so the cost stays invisible — and it is only paid while the
    // popup is open.
    _topSampleLive() {
      this._topBeginWalk(true);
    }

    // Current reading for one process name, merging the /proc-derived metrics
    // with the subprocess-derived ones. Absent means "not using it now" — 0,
    // not the trailing average.
    _topLiveValue(name, metric) {
      const proc = this._topLiveProc?.get(name);
      if (proc && metric in proc) {
        return proc[metric];
      }

      const extra = this._topLiveExtra?.get(name);
      if (extra && metric in extra) {
        return extra[metric];
      }

      return 0;
    }

    // ── Aggregation and rendering ────────────────────────────────────────
    _topMetricKeys() {
      return ["cpu", "ram", "disk", "net", "gpu", "vram"];
    }

    _topAggregate() {
      const keys = this._topMetricKeys();
      const totals = new Map();
      let samples = 0;

      for (const bucket of this._topBuckets ?? []) {
        samples += bucket.samples;

        for (const [name, entry] of bucket.totals) {
          let sum = totals.get(name);
          if (!sum) {
            sum = { cpu: 0, ram: 0, disk: 0, net: 0, gpu: 0, vram: 0 };
            totals.set(name, sum);
          }

          for (const key of keys) {
            sum[key] += entry[key];
          }
        }
      }

      // Divide by the window's sample count, not by each process's own
"##;

pub const METHODS_TEMPLATE_11: &'static str = r##"      // lifetime: a process busy for two of sixty minutes should rank below
      // one busy throughout.
      if (samples > 0) {
        for (const sum of totals.values()) {
          for (const key of keys) {
            sum[key] /= samples;
          }
        }
      }

      return { totals, samples };
    }

    _topFormatPercent(value) {
      return `${value.toFixed(1)}%`;
    }

    _topFormatBytesPerSecond(value) {
      if (value >= 1048576) {
        return `${(value / 1048576).toFixed(1)} MB/s`;
      }

      if (value >= 1024) {
        return `${(value / 1024).toFixed(0)} kB/s`;
      }

      return `${value.toFixed(0)} B/s`;
    }

    _topFormatBitsPerSecond(value) {
      // The panel's network columns read in bits, so these rows match them.
      const bits = value * 8;
      if (bits >= 1000000) {
        return `${(bits / 1000000).toFixed(1)} Mb/s`;
      }

      if (bits >= 1000) {
        return `${(bits / 1000).toFixed(0)} kb/s`;
      }

      return `${bits.toFixed(0)} b/s`;
    }

    _topFormatMegabytes(value) {
      if (value >= 1024) {
        return `${(value / 1024).toFixed(1)} GB`;
      }

      return `${value.toFixed(0)} MB`;
    }

    // Rows per section. The popup re-ranks on every tick, so this is also
    // how many fixed slots each section builds once at open time.
    _topRowCount() {
      return 5;
    }

    _topSections() {
      return [
        {
          metric: "cpu",
          label: _("CPU"),
          format: (value) => this._topFormatPercent(value),
        },
        {
          metric: "ram",
          label: _("RAM"),
          format: (value) => this._topFormatPercent(value),
        },
        {
          metric: "disk",
          label: _("Disk usage"),
          format: (value) => this._topFormatBytesPerSecond(value),
        },
        {
          metric: "net",
          label: _("Network"),
          format: (value) => this._topFormatBitsPerSecond(value),
        },
        {
          metric: "gpu",
          label: _("GPU usage"),
          format: (value) => this._topFormatPercent(value),
        },
        {
          metric: "vram",
          label: _("GPU VRAM"),
          format: (value) => this._topFormatMegabytes(value),
        },
      ];
    }

    // One place decides the column widths, so the live repaint can never
    // drift out of alignment with the row the initial render produced.
    _topRowText(label, current, average, format) {
      return `${label.padEnd(19)}${format(current).padStart(11)}${format(
        average
      ).padStart(11)}`;
    }

    // Names with a current reading for this metric, heaviest user first.
    _topRankLive(metric) {
      const names = new Set();
      for (const store of [this._topLiveProc, this._topLiveExtra]) {
"##;

pub const METHODS_TEMPLATE_12: &'static str = r##"        for (const [name, entry] of store ?? new Map()) {
          if (metric in entry) {
            names.add(name);
          }
        }
      }

      const ranked = [];
      for (const name of names) {
        const value = this._topLiveValue(name, metric);
        if (value > 0) {
          ranked.push([name, value]);
        }
      }

      return ranked.sort((a, b) => b[1] - a[1]).slice(0, this._topRowCount());
    }

    // Ranking for one section. CPU and disk are deltas, so the first sweep
    // after opening has nothing to compare against yet; the rolling averages
    // stand in for that one tick rather than showing an empty section.
    _topRank(metric) {
      const live = this._topRankLive(metric);
      if (live.length > 0) {
        return live.map((pair) => pair[0]);
      }

      return [...(this._topAverages ?? new Map()).entries()]
        .map((pair) => [pair[0], pair[1][metric]])
        .filter((pair) => pair[1] > 0)
        .sort((a, b) => b[1] - a[1])
        .slice(0, this._topRowCount())
        .map((pair) => pair[0]);
    }

    // Text for a slot with no process to show. A section that ranked nothing
    // at all says so in its first row; every other spare row is blank. The
    // space itself matters: a zero-width label would let the row collapse.
    _topPlaceholderRowText(index, ranked) {
      if (index === 0 && ranked === 0) {
        return _("No activity.");
      }

      return " ";
    }

    // Re-rank by the live reading and write the result into a fixed set of
    // rows. Rebuilding the menu at the popup's refresh rate would fight the
    // pointer and reset scroll on every tick, so the rows are permanent slots
    // and reordering costs nothing but a set_text.
    _topRenderLiveValues() {
      const averages = this._topAverages ?? new Map();

      for (const section of this._topLiveSections ?? []) {
        const names = this._topRank(section.metric);

        for (let i = 0; i < section.slots.length; i++) {
          const item = section.slots[i];
          const name = names[i];
          // Spare rows are written, never hidden. Hiding them would resize
          // the popup on every tick — unplug the ethernet cable and the whole
          // Network section would collapse, shoving every section below it
          // up the screen. The slot count is what the section is tall.
          if (name === undefined) {
            item.label.set_text(this._topPlaceholderRowText(i, names.length));
            continue;
          }

          // Just the process name — no PID, no command line, no arguments.
          const label = name.length > 18 ? `${name.slice(0, 17)}…` : name;
          item.label.set_text(
            this._topRowText(
              label,
"##;

pub const METHODS_TEMPLATE_13: &'static str = r##"              this._topLiveValue(name, section.metric),
              averages.get(name)?.[section.metric] ?? 0,
              section.format
            )
          );
        }
      }
    }

    _refreshProcessMenu() {
      this.menu.removeAll();
      this._topLiveSections = [];
      // Values from a previous opening are stale by an unknown amount; the
      // first live ticks refill this within a refresh or two.
      this._topLiveProc = new Map();

      const minutes = this._topUsersWindowMinutes();
      const { totals, samples } = this._topAggregate();
      // The "avg" column reads from here for the life of this opening; the
      // 10 s sweep refreshes it, so a live tick never re-aggregates.
      this._topAverages = totals;
      const collected = Math.min(
        minutes,
        Math.round((samples * this._topSampleSeconds()) / 60)
      );

      const title =
        collected < minutes
          ? `${_("Top process users")} — ${_("last")} ${minutes} ${_(
              "min"
            )} (${collected} ${_("collected")})`
          : `${_("Top process users")} — ${_("last")} ${minutes} ${_("min")}`;
      const header = new PopupMenu.PopupMenuItem(title, { reactive: false });
      header.label.set_style("font-weight: bold;");
      this.menu.addMenuItem(header);

      const columns = new PopupMenu.PopupMenuItem(
        `${"".padEnd(19)}${_("now").padStart(11)}${_("avg").padStart(11)}`,
        { reactive: false }
      );
      columns.label.set_style("font-family: monospace; font-weight: bold;");
      this.menu.addMenuItem(columns);

      for (const section of this._topSections()) {
        this.menu.addMenuItem(
          new PopupMenu.PopupSeparatorMenuItem(section.label)
        );

        // Build the slots empty and let the renderer fill them. Ranking lives
        // in exactly one place that way, so the first paint and every later
        // tick can never disagree about the order. Every section gets the
        // full count whether or not there is anything to put in it, so its
        // height is decided here, once, and never changes while it is open.
        const slots = [];
        for (let i = 0; i < this._topRowCount(); i++) {
          const item = new PopupMenu.PopupMenuItem(" ", { reactive: false });
          item.label.set_style("font-family: monospace;");
          this.menu.addMenuItem(item);
          slots.push(item);
        }

        this._topLiveSections.push({
          metric: section.metric,
          format: section.format,
          slots,
        });
      }

      this._topRenderLiveValues();
    }

"##;

pub const OLD_CLICK: &'static str = r#"        case 1: // Left-click
          this._launchPrimaryAction();"#;

pub const NEW_CLICK: &'static str = r#"        case 1: // Left-click
          // vfunc_event above already toggled the process popup for this very
          // event. Toggling again here would cancel it out and leave the panel
          // button looking dead, so only swallow the click (which also keeps
          // the upstream _launchPrimaryAction from running)."#;

/// First-generation rewrite that toggled the popup a second time per click.
/// Re-running the patcher over an already-installed tree must upgrade it.
pub const LEGACY_CLICK: &'static str = r#"        case 1: // Left-click
          // Show per-process CPU/RAM data instead of launching the task manager.
          this._toggleProcessMenu();"#;

pub const OLD_KEY: &'static str = r#"        case Clutter.KEY_space:
          this._launchPrimaryAction();"#;

pub const NEW_KEY: &'static str = r#"        case Clutter.KEY_space:
          // Keyboard activation mirrors left-click: show the process popup.
          this._toggleProcessMenu();"#;

pub const OLD_TOOLTIP: &'static str = r#"_("Left-click launches the configured action.")"#;

pub const NEW_TOOLTIP: &'static str = r#"_("Left-click shows the top process users of each metric.")"#;

/// Tooltip written by the first generation of this patcher.
pub const LEGACY_TOOLTIP: &'static str = r#"_("Left-click shows per-process CPU and RAM usage.")"#;

pub const OLD_INIT_TAIL: &'static str = r#"      this._refreshHandler();
    }

    _setupAccessibility() {"#;

pub const NEW_INIT_TAIL: &'static str = r#"      this._refreshHandler();

      // Collect top-process history from load, not from the first click.
      this._topUsersStart();
    }

    _setupAccessibility() {"#;

pub const OLD_DESTROY_HEAD: &'static str = r#"    destroy() {
      this._destroyed = true;

      if (this._mainTimer) {"#;

pub const NEW_DESTROY_HEAD: &'static str = r#"    destroy() {
      this._destroyed = true;

      this._topUsersStop();

      if (this._mainTimer) {"#;

/// Failure while applying the process-popup patch.
#[derive(Debug, Clone, Copy, PartialEq, Eq)]
pub enum ProcessPopupError {
    /// The `PanelMenu` import anchor is missing.
    MissingPanelMenuImport,
    /// The `_clickManager` anchor is missing.
    MissingClickManager,
    /// Neither the upstream nor the patched left-click case is present.
    MissingLeftClickCase,
    /// Neither the upstream nor the patched keyboard case is present.
    MissingKeyboardCase,
    /// Neither the upstream nor the patched tooltip string is present.
    MissingTooltip,
    /// The `_init` tail that starts the background sampler is missing.
    MissingInitHook,
    /// The `destroy` head that stops the background sampler is missing.
    MissingDestroyHook,
    /// The requested rolling window is outside the range the popup accepts.
    WindowOutOfRange,
}

impl ProcessPopupError {
    /// The error's message.
    pub fn message(&self) -> (r: &'static str)
        ensures
            r@ == popup_error_message(*self),
    {
        match self {
            ProcessPopupError::MissingPanelMenuImport => "ERROR: PanelMenu import not found; upstream layout changed — aborting.",
            ProcessPopupError::MissingClickManager => "ERROR: _clickManager not found; upstream layout changed — aborting.",
            ProcessPopupError::MissingLeftClickCase => "ERROR: left-click _launchPrimaryAction case not found — aborting.",
            ProcessPopupError::MissingKeyboardCase => "ERROR: keyboard _launchPrimaryAction case not found — aborting.",
            ProcessPopupError::MissingTooltip => "ERROR: process-popup tooltip string not found — aborting.",
            ProcessPopupError::MissingInitHook => "ERROR: _init refresh-handler tail not found; upstream layout changed — aborting.",
            ProcessPopupError::MissingDestroyHook => "ERROR: destroy() head not found; upstream layout changed — aborting.",
            ProcessPopupError::WindowOutOfRange => "ERROR: --window-minutes must be between 1 and 1440.",
        }
    }
}

/// The message of each error.
pub open spec fn popup_error_message(e: ProcessPopupError) -> Seq<char> {
    match e {
        ProcessPopupError::MissingPanelMenuImport => "ERROR: PanelMenu import not found; upstream layout changed — aborting."@,
        ProcessPopupError::MissingClickManager => "ERROR: _clickManager not found; upstream layout changed — aborting."@,
        ProcessPopupError::MissingLeftClickCase => "ERROR: left-click _launchPrimaryAction case not found — aborting."@,
        ProcessPopupError::MissingKeyboardCase => "ERROR: keyboard _launchPrimaryAction case not found — aborting."@,
        ProcessPopupError::MissingTooltip => "ERROR: process-popup tooltip string not found — aborting."@,
        ProcessPopupError::MissingInitHook => "ERROR: _init refresh-handler tail not found; upstream layout changed — aborting."@,
        ProcessPopupError::MissingDestroyHook => "ERROR: destroy() head not found; upstream layout changed — aborting."@,
        ProcessPopupError::WindowOutOfRange => "ERROR: --window-minutes must be between 1 and 1440."@,
    }
}

/// Outcome of one edit step: the text and whether the step changed it.
pub type StepResult = Result<(Seq<char>, bool), ProcessPopupError>;

// ── Specifications ───────────────────────────────────────────────────────────

/// The popup methods template, all parts in order.
pub open spec fn template_text() -> Seq<char> {
    METHODS_TEMPLATE_1@
        + METHODS_TEMPLATE_2@
        + METHODS_TEMPLATE_3@
        + METHODS_TEMPLATE_4@
        + METHODS_TEMPLATE_5@
        + METHODS_TEMPLATE_6@
        + METHODS_TEMPLATE_7@
        + METHODS_TEMPLATE_8@
        + METHODS_TEMPLATE_9@
        + METHODS_TEMPLATE_10@
        + METHODS_TEMPLATE_11@
        + METHODS_TEMPLATE_12@
        + METHODS_TEMPLATE_13@
}


/// The methods template with the rolling window written in for every placeholder.
pub open spec fn rendered_methods(window_minutes: u32) -> Seq<char> {
    replace_all(template_text(), WINDOW_PLACEHOLDER@, decimal(window_minutes as int))
}

/// Step 1: the `PopupMenu` import.
pub open spec fn import_step(c: Seq<char>) -> StepResult {
    if contains(c, POPUP_MENU_IMPORT@) {
        Ok((c, false))
    } else if !contains(c, PANEL_MENU_IMPORT@) {
        Err(ProcessPopupError::MissingPanelMenuImport)
    } else {
        Ok((replace_first(c, PANEL_MENU_IMPORT@, PANEL_MENU_IMPORT@ + "\n"@ + POPUP_MENU_IMPORT@), true))
    }
}

/// Step 2: the popup methods, inserted before `_clickManager`, or re-rendered
/// in place from the (current or legacy) block header up to `_clickManager`.
pub open spec fn methods_step(c: Seq<char>, rendered: Seq<char>) -> StepResult {
    if !contains(c, CLICK_MANAGER_ANCHOR@) {
        Err(ProcessPopupError::MissingClickManager)
    } else {
        let existing = match find(c, METHODS_START@) {
            Some(s) => Some(s),
            None => find(c, LEGACY_METHODS_START@),
        };
        match existing {
            Some(start) => match find_from(c, CLICK_MANAGER_ANCHOR@, start) {
                None => Err(ProcessPopupError::MissingClickManager),
                Some(end) => if c.subrange(start, end) != rendered {
                    Ok((c.take(start) + rendered + c.skip(end), true))
                } else {
                    Ok((c, false))
                },
            },
            None => Ok((replace_first(c, CLICK_MANAGER_ANCHOR@, rendered + CLICK_MANAGER_ANCHOR@), true)),
        }
    }
}

/// An edit with an upstream form, an optional older patched form, and the
/// current form: the first form present is rewritten; with neither present
/// the current form must already be there.
pub open spec fn rewrite_step(
    c: Seq<char>,
    old: Seq<char>,
    legacy: Option<Seq<char>>,
    new: Seq<char>,
    missing: ProcessPopupError,
) -> StepResult {
    if contains(c, old) {
        Ok((replace_first(c, old, new), true))
    } else if legacy is Some && contains(c, legacy->0) {
        Ok((replace_first(c, legacy->0, new), true))
    } else if !contains(c, new) {
        Err(missing)
    } else {
        Ok((c, false))
    }
}

/// A hook edit: the current form present means nothing to do; otherwise the
/// upstream form must be there and is rewritten.
pub open spec fn hook_step(c: Seq<char>, old: Seq<char>, new: Seq<char>, missing: ProcessPopupError) -> StepResult {
    if contains(c, new) {
        Ok((c, false))
    } else if !contains(c, old) {
        Err(missing)
    } else {
        Ok((replace_first(c, old, new), true))
    }
}

/// Runs `step` on the text of a successful `prev`, or-ing the change flags.
pub open spec fn then_step(prev: StepResult, step: spec_fn(Seq<char>) -> StepResult) -> StepResult {
    match prev {
        Err(e) => Err(e),
        Ok((t, changed)) => match step(t) {
            Err(e) => Err(e),
            Ok((t2, changed2)) => Ok((t2, changed || changed2)),
        },
    }
}

/// Result of [`patch_extension_js`].
pub open spec fn popup_patch(content: Seq<char>, window_minutes: u32) -> StepResult {
    if window_minutes == 0 || window_minutes > MAX_WINDOW_MINUTES {
        Err(ProcessPopupError::WindowOutOfRange)
    } else {
        let rendered = rendered_methods(window_minutes);
        let s1 = import_step(content);
        let s2 = then_step(s1, |t: Seq<char>| methods_step(t, rendered));
        let s3 = then_step(
            s2,
            |t: Seq<char>|
                rewrite_step(t, OLD_CLICK@, Some(LEGACY_CLICK@), NEW_CLICK@, ProcessPopupError::MissingLeftClickCase),
        );
        let s4 = then_step(
            s3,
            |t: Seq<char>| rewrite_step(t, OLD_KEY@, None, NEW_KEY@, ProcessPopupError::MissingKeyboardCase),
        );
        let s5 = then_step(
            s4,
            |t: Seq<char>|
                rewrite_step(t, OLD_TOOLTIP@, Some(LEGACY_TOOLTIP@), NEW_TOOLTIP@, ProcessPopupError::MissingTooltip),
        );
        let s6 = then_step(
            s5,
            |t: Seq<char>| hook_step(t, OLD_INIT_TAIL@, NEW_INIT_TAIL@, ProcessPopupError::MissingInitHook),
        );
        then_step(
            s6,
            |t: Seq<char>| hook_step(t, OLD_DESTROY_HEAD@, NEW_DESTROY_HEAD@, ProcessPopupError::MissingDestroyHook),
        )
    }
}

/// Whether an executable step outcome agrees with its specification.
pub open spec fn step_agrees(r: Result<(Vec<char>, bool), ProcessPopupError>, s: StepResult) -> bool {
    match s {
        Ok((t, changed)) => r matches Ok((v, ch)) && v@ == t && ch == changed,
        Err(e) => r == Err::<(Vec<char>, bool), ProcessPopupError>(e),
    }
}

// ── Executable steps ─────────────────────────────────────────────────────────

/// The popup methods template, all parts in order.
pub fn methods_template() -> (r: String)
    ensures
        r@ == template_text(),
{
    let v = template_chars();
    chars_string(v.as_slice())
}

/// [`methods_template`] as characters.
fn template_chars() -> (r: Vec<char>)
    ensures
        r@ == template_text(),
{
    let mut v: Vec<char> = Vec::new();
    push_str(&mut v, METHODS_TEMPLATE_1);
    push_str(&mut v, METHODS_TEMPLATE_2);
    push_str(&mut v, METHODS_TEMPLATE_3);
    push_str(&mut v, METHODS_TEMPLATE_4);
    push_str(&mut v, METHODS_TEMPLATE_5);
    push_str(&mut v, METHODS_TEMPLATE_6);
    push_str(&mut v, METHODS_TEMPLATE_7);
    push_str(&mut v, METHODS_TEMPLATE_8);
    push_str(&mut v, METHODS_TEMPLATE_9);
    push_str(&mut v, METHODS_TEMPLATE_10);
    push_str(&mut v, METHODS_TEMPLATE_11);
    push_str(&mut v, METHODS_TEMPLATE_12);
    push_str(&mut v, METHODS_TEMPLATE_13);
    v
}


/// Render the methods template with the rolling window baked in.
pub fn methods(window_minutes: u32) -> (r: String)
    ensures
        r@ == rendered_methods(window_minutes),
{
    let v = methods_chars(window_minutes);
    chars_string(v.as_slice())
}

/// [`methods`] as characters.
fn methods_chars(window_minutes: u32) -> (r: Vec<char>)
    ensures
        r@ == rendered_methods(window_minutes),
{
    let template = template_chars();
    let placeholder = str_chars(WINDOW_PLACEHOLDER);
    let digits = decimal_exec(window_minutes as i64);
    replace_all_exec(template.as_slice(), placeholder.as_slice(), digits.as_slice())
}

/// A copy of `c`.
fn copy_chars(c: &[char]) -> (r: Vec<char>)
    ensures
        r@ == c@,
{
    let mut v: Vec<char> = Vec::new();
    push_all(&mut v, c);
    assert(v@ =~= c@);
    v
}

/// Step 1 on characters.
fn import_step_exec(c: &[char]) -> (r: Result<(Vec<char>, bool), ProcessPopupError>)
    ensures
        step_agrees(r, import_step(c@)),
{
    if contains_str(c, POPUP_MENU_IMPORT) {
        return Ok((copy_chars(c), false));
    }
    if !contains_str(c, PANEL_MENU_IMPORT) {
        return Err(ProcessPopupError::MissingPanelMenuImport);
    }
    let mut rep = str_chars(PANEL_MENU_IMPORT);
    push_str(&mut rep, "\n");
    push_str(&mut rep, POPUP_MENU_IMPORT);
    let pat = str_chars(PANEL_MENU_IMPORT);
    Ok((replace_first_exec(c, pat.as_slice(), rep.as_slice()), true))
}

/// Step 2 on characters.
fn methods_step_exec(c: &[char], rendered: &[char]) -> (r: Result<(Vec<char>, bool), ProcessPopupError>)
    ensures
        step_agrees(r, methods_step(c@, rendered@)),
{
    let anchor = str_chars(CLICK_MANAGER_ANCHOR);
    if !contains_str(c, CLICK_MANAGER_ANCHOR) {
        return Err(ProcessPopupError::MissingClickManager);
    }
    let current = str_chars(METHODS_START);
    let legacy = str_chars(LEGACY_METHODS_START);
    let existing = match find_exec(c, current.as_slice()) {
        Some(s) => Some(s),
        None => find_exec(c, legacy.as_slice()),
    };
    match existing {
        Some(start) => {
            proof {
                lemma_find_from(c@, current@, 0);
                lemma_find_from(c@, legacy@, 0);
            }
            match find_from_exec(c, anchor.as_slice(), start) {
                None => Err(ProcessPopupError::MissingClickManager),
                Some(end) => {
                    proof {
                        lemma_find_from(c@, anchor@, start as int);
                        assert(matches_at(c@, anchor@, end as int));
                    }
                    assert(start <= end && end <= c.len());
                    let mut block: Vec<char> = Vec::new();
                    push_range(&mut block, c, start, end);
                    if !chars_eq(block.as_slice(), rendered) {
                        let mut out: Vec<char> = Vec::new();
                        push_range(&mut out, c, 0, start);
                        push_all(&mut out, rendered);
                        push_range(&mut out, c, end, c.len());
                        assert(c@.take(start as int) =~= c@.subrange(0, start as int));
                        assert(c@.skip(end as int) =~= c@.subrange(end as int, c.len() as int));
                        Ok((out, true))
                    } else {
                        Ok((copy_chars(c), false))
                    }
                },
            }
        },
        None => {
            let mut rep: Vec<char> = Vec::new();
            push_all(&mut rep, rendered);
            push_all(&mut rep, anchor.as_slice());
            Ok((replace_first_exec(c, anchor.as_slice(), rep.as_slice()), true))
        },
    }
}

/// A rewrite step on characters.
fn rewrite_step_exec(
    c: &[char],
    old: &str,
    legacy: Option<&str>,
    new: &str,
    missing: ProcessPopupError,
) -> (r: Result<(Vec<char>, bool), ProcessPopupError>)
    ensures
        step_agrees(
            r,
            rewrite_step(
                c@,
                old@,
                match legacy {
                    Some(l) => Some(l@),
                    None => None,
                },
                new@,
                missing,
            ),
        ),
{
    if contains_str(c, old) {
        return Ok((replace_first_str(c, old, new), true));
    }
    match legacy {
        Some(l) => {
            if contains_str(c, l) {
                return Ok((replace_first_str(c, l, new), true));
            }
        },
        None => {},
    }
    if !contains_str(c, new) {
        return Err(missing);
    }
    Ok((copy_chars(c), false))
}

/// A hook step on characters.
fn hook_step_exec(c: &[char], old: &str, new: &str, missing: ProcessPopupError) -> (r: Result<
    (Vec<char>, bool),
    ProcessPopupError,
>)
    ensures
        step_agrees(r, hook_step(c@, old@, new@, missing)),
{
    if contains_str(c, new) {
        return Ok((copy_chars(c), false));
    }
    if !contains_str(c, old) {
        return Err(missing);
    }
    Ok((replace_first_str(c, old, new), true))
}

/// Apply every process-popup edit to `extension.js` content.
///
/// Returns the patched content and whether anything changed.
pub fn patch_extension_js(content: &str, window_minutes: u32) -> (r: Result<(String, bool), ProcessPopupError>)
    ensures
        match popup_patch(content@, window_minutes) {
            Ok((t, changed)) => r matches Ok((s, ch)) && s@ == t && ch == changed,
            Err(e) => r == Err::<(String, bool), ProcessPopupError>(e),
        },
{
    if window_minutes == 0 || window_minutes > MAX_WINDOW_MINUTES {
        return Err(ProcessPopupError::WindowOutOfRange);
    }
    let ghost rendered_spec = rendered_methods(window_minutes);
    let c = str_chars(content);
    let rendered = methods_chars(window_minutes);
    let s1 = import_step_exec(c.as_slice());
    let (t1, ch1) = match s1 {
        Ok(x) => x,
        Err(e) => return Err(e),
    };
    let s2 = methods_step_exec(t1.as_slice(), rendered.as_slice());
    let (t2, ch2) = match s2 {
        Ok(x) => x,
        Err(e) => return Err(e),
    };
    let s3 = rewrite_step_exec(
        t2.as_slice(),
        OLD_CLICK,
        Some(LEGACY_CLICK),
        NEW_CLICK,
        ProcessPopupError::MissingLeftClickCase,
    );
    let (t3, ch3) = match s3 {
        Ok(x) => x,
        Err(e) => return Err(e),
    };
    let s4 = rewrite_step_exec(t3.as_slice(), OLD_KEY, None, NEW_KEY, ProcessPopupError::MissingKeyboardCase);
    let (t4, ch4) = match s4 {
        Ok(x) => x,
        Err(e) => return Err(e),
    };
    let s5 = rewrite_step_exec(
        t4.as_slice(),
        OLD_TOOLTIP,
        Some(LEGACY_TOOLTIP),
        NEW_TOOLTIP,
        ProcessPopupError::MissingTooltip,
    );
    let (t5, ch5) = match s5 {
        Ok(x) => x,
        Err(e) => return Err(e),
    };
    let s6 = hook_step_exec(t5.as_slice(), OLD_INIT_TAIL, NEW_INIT_TAIL, ProcessPopupError::MissingInitHook);
    let (t6, ch6) = match s6 {
        Ok(x) => x,
        Err(e) => return Err(e),
    };
    let s7 = hook_step_exec(t6.as_slice(), OLD_DESTROY_HEAD, NEW_DESTROY_HEAD, ProcessPopupError::MissingDestroyHook);
    let (t7, ch7) = match s7 {
        Ok(x) => x,
        Err(e) => return Err(e),
    };
    Ok((chars_string(t7.as_slice()), ch1 || ch2 || ch3 || ch4 || ch5 || ch6 || ch7))
}

// ── Laws ─────────────────────────────────────────────────────────────────────

/// Every character of a non-negative decimal is an ASCII digit, and there is
/// at least one.
pub proof fn lemma_decimal_is_digits(n: int)
    requires
        n >= 0,
    ensures
        decimal(n).len() > 0,
        forall|i: int| 0 <= i < decimal(n).len() ==> '0' <= #[trigger] decimal(n)[i] <= '9',
    decreases n,
{
    if n >= 10 {
        lemma_decimal_is_digits(n / 10);
        let d = decimal(n / 10);
        assert(decimal(n) == d + seq![digit_char(n % 10)]);
        assert forall|i: int| 0 <= i < decimal(n).len() implies '0' <= #[trigger] decimal(n)[i] <= '9' by {
            if i < d.len() {
                assert(decimal(n)[i] == d[i]);
            }
        }
    }
}

/// The rendered popup methods carry the window in every place the template
/// holds the placeholder: no placeholder is left, whatever the window.
pub proof fn lemma_rendered_methods_have_no_placeholder(window_minutes: u32)
    ensures
        !contains(rendered_methods(window_minutes), WINDOW_PLACEHOLDER@),
{
    reveal_strlit("__TOP_WINDOW_MINUTES__");
    lemma_decimal_is_digits(window_minutes as int);
    let r = decimal(window_minutes as int);
    let p = WINDOW_PLACEHOLDER@;
    assert forall|j: int| 0 <= j < p.len() implies !('0' <= #[trigger] p[j] <= '9') by {}
    assert forall|i: int, j: int| 0 <= i < r.len() && 0 <= j < p.len() implies r[i] != p[j] by {
        assert('0' <= r[i] <= '9');
        assert(!('0' <= p[j] <= '9'));
    }
    lemma_replace_all_removes(template_text(), p, r);
}

/// An already-patched `extension.js` is left alone: when the text carries the
/// `PopupMenu` import, the methods rendered for this window standing between
/// the first methods header and the next `_clickManager`, the current forms
/// of the click, keyboard and tooltip edits with none of their older forms
/// left, and both lifecycle hooks, patching succeeds, reports no change and
/// keeps the text.
pub proof fn lemma_patched_extension_is_fixed(content: Seq<char>, window_minutes: u32)
    requires
        1 <= window_minutes <= MAX_WINDOW_MINUTES,
        contains(content, POPUP_MENU_IMPORT@),
        find(content, METHODS_START@) matches Some(s)
            && find_from(content, CLICK_MANAGER_ANCHOR@, s) matches Some(e)
            && content.subrange(s, e) == rendered_methods(window_minutes),
        !contains(content, OLD_CLICK@),
        !contains(content, LEGACY_CLICK@),
        contains(content, NEW_CLICK@),
        !contains(content, OLD_KEY@),
        contains(content, NEW_KEY@),
        !contains(content, OLD_TOOLTIP@),
        !contains(content, LEGACY_TOOLTIP@),
        contains(content, NEW_TOOLTIP@),
        contains(content, NEW_INIT_TAIL@),
        contains(content, NEW_DESTROY_HEAD@),
    ensures
        popup_patch(content, window_minutes) == Ok::<(Seq<char>, bool), ProcessPopupError>((content, false)),
{
    let s = find(content, METHODS_START@)->0;
    lemma_find_from(content, METHODS_START@, 0);
    lemma_find_from(content, CLICK_MANAGER_ANCHOR@, s);
    let e = find_from(content, CLICK_MANAGER_ANCHOR@, s)->0;
    assert(matches_at(content, CLICK_MANAGER_ANCHOR@, e));
    crate::text::lemma_contains_at(content, CLICK_MANAGER_ANCHOR@, e);
}

} // verus!
