//! The script the desktop shell injects into every page: the startup profiles, the runtime
//! flags of the platform, the native cursor bridge where the platform has one, and the
//! optional automation helpers.
use crate::shell::{built_in_profiles, built_in_profiles_spec, ProfileView, RuntimePolicy, DEFAULT_PROFILE_ID};
use vstd::prelude::*;
use vstd::string::{StrSliceExecFns, StringExecFns};

verus! {

/// Marker that opens the native cursor section of the runtime script.
pub const NATIVE_CURSOR_SCRIPT_BEGIN: &'static str = "/* RTS_NATIVE_CURSOR_BEGIN */";

/// Marker that closes the native cursor section of the runtime script.
pub const NATIVE_CURSOR_SCRIPT_END: &'static str = "/* RTS_NATIVE_CURSOR_END */";

/// Opening of the page runtime script, up to the profile list.
pub const SCRIPT_BEFORE_PROFILES: &'static str = r###"
(() => {
  const profiles = Object.freeze("###;

/// Text between the profile list and the default profile id.
pub const SCRIPT_BEFORE_DEFAULT_PROFILE: &'static str = r###".map((profile) => Object.freeze({ ...profile })));
  const defaultProfileId = "###;

/// Text between the default profile id and the developer server URL.
pub const SCRIPT_BEFORE_DEVELOPER_URL: &'static str = r###";
  const developerServerUrl = "###;

/// Text between the developer server URL and the platform name.
pub const SCRIPT_BEFORE_PLATFORM: &'static str = r###";
  const parseUrl = (value) => {
    try {
      return new URL(value);
    } catch {
      return null;
    }
  };
  const sameOrigin = (left, right) => {
    if (!left || !right) return false;
    return left.protocol === right.protocol && left.hostname === right.hostname && left.port === right.port;
  };
  const currentUrl = parseUrl(window.location.href);
  const selectedProfile = profiles.find((profile) => sameOrigin(currentUrl, parseUrl(profile.url))) || null;
  const developerSelected = !!developerServerUrl && sameOrigin(currentUrl, parseUrl(developerServerUrl));

  Object.defineProperty(window, "__RTS_DESKTOP_STARTUP", {
    value: Object.freeze({
      profiles,
      defaultProfileId,
      developerServerUrl
    }),
    configurable: false,
    writable: false
  });

  const runtime = Object.freeze({
    shell: "tauri",
    platform: "###;

/// Text before the native cursor backend flag.
pub const SCRIPT_BEFORE_NATIVE_BACKEND: &'static str = r###",
    nativeCursorBackend: "###;

/// Text before the native cursor capture flag.
pub const SCRIPT_BEFORE_NATIVE_CAPTURE: &'static str = r###",
    nativeCursorCapture: "###;

/// Text before the pointer-lock flag.
pub const SCRIPT_BEFORE_POINTER_LOCK: &'static str = r###",
    pointerLockDisabled: "###;

/// Text before the aggressive cursor lock flag.
pub const SCRIPT_BEFORE_AGGRESSIVE_LOCK: &'static str = r###",
    aggressiveCursorLock: "###;

/// Text before the autostart flag.
pub const SCRIPT_BEFORE_AUTOSTART_FLAG: &'static str = r###",
    autostart: "###;

/// Text before the autolock flag.
pub const SCRIPT_BEFORE_AUTOLOCK_FLAG: &'static str = r###",
    autolock: "###;

/// Runtime object, diagnostics, command bridge and link handling, up to the native cursor section.
pub const SCRIPT_BEFORE_NATIVE_SECTION: &'static str = r###",
    serverMode: selectedProfile ? "release" : developerSelected ? "developer" : "startup",
    serverUrl: selectedProfile ? selectedProfile.url : developerSelected ? developerServerUrl : null,
    releaseChannel: selectedProfile ? selectedProfile.id : null
  });
  Object.defineProperty(window, "__RTS_DESKTOP_RUNTIME", {
    value: runtime,
    configurable: false,
    writable: false
  });

  const diagnostics = {
    supported: runtime.nativeCursorBackend,
    backend: runtime.nativeCursorBackend ? "native-macos" : "browser-raw",
    active: false,
    visual: runtime.nativeCursorBackend ? "dom-event-time" : null,
    movementBatched: false,
    nativeEventsReceived: 0,
    jsEventsProcessed: 0,
    droppedEvents: 0,
    backloggedEvents: 0,
    lastSequence: 0,
    lastDeliveryLatencyMs: null,
    lastReason: "ready",
    lastError: null
  };

  const invoke = (cmd, payload = {}) => {
    const candidates = [
      window.__TAURI_INTERNALS__ && window.__TAURI_INTERNALS__.invoke,
      window.__TAURI__ && window.__TAURI__.core && window.__TAURI__.core.invoke,
      window.__TAURI__ && window.__TAURI__.tauri && window.__TAURI__.tauri.invoke,
      window.__TAURI__ && window.__TAURI__.invoke
    ];
    const tauriInvoke = candidates.find((candidate) => typeof candidate === "function");
    if (typeof tauriInvoke !== "function") {
      const message = "Tauri invoke bridge is unavailable.";
      diagnostics.lastError = message;
      return Promise.reject(new Error(message));
    }
    return tauriInvoke(cmd, payload);
  };
  const desktopLogEvent = (event, message) => {
    const safeMessage = message == null ? null : String(message).slice(0, 600);
    return invoke("desktop_log_client_event", {
      event,
      message: safeMessage,
      url: window.location.href
    }).catch(() => {});
  };
  const sameOriginTargetBlankUrl = (anchor) => {
    if (!anchor || String(anchor.target || "").toLowerCase() !== "_blank") return null;
    const href = anchor.getAttribute("href") || "";
    if (!href || anchor.hasAttribute("download")) return null;
    try {
      const url = new URL(href, window.location.href);
      return url.origin === window.location.origin ? url : null;
    } catch {
      return null;
    }
  };
  const redirectSameOriginTargetBlank = (event) => {
    if (event.defaultPrevented || event.button !== 0) return;
    if (event.metaKey || event.ctrlKey || event.shiftKey || event.altKey) return;
    const target = event.target;
    const element = target && typeof target.closest === "function" ? target : target && target.parentElement;
    const anchor = element && typeof element.closest === "function" ? element.closest("a[target]") : null;
    const url = sameOriginTargetBlankUrl(anchor);
    if (!url) return;
    event.preventDefault();
    void desktopLogEvent("desktop_same_origin_target_blank", url.pathname);
    window.location.assign(url.href);
  };
  if (typeof document !== "undefined") {
    document.addEventListener("click", redirectSameOriginTargetBlank, true);
  }

  "###;

/// The native cursor bridge, between its markers; only a shell with the native backend keeps it.
pub const NATIVE_CURSOR_SECTION: &'static str = r###"/* RTS_NATIVE_CURSOR_BEGIN */
  const denied = () => Promise.reject(new DOMException(
    "Pointer Lock is disabled in the macOS native-cursor shell.",
    "NotAllowedError"
  ));
  const replace = (target, name) => {
    if (!target || typeof target[name] !== "function") return;
    try {
      Object.defineProperty(target, name, {
        value: denied,
        configurable: true,
        writable: false
      });
    } catch {}
  };

  const listeners = new Set();
  const showDesktopShellFailure = (message) => {
    if (document.getElementById("rts-desktop-shell-failure")) return;
    const panel = document.createElement("aside");
    panel.id = "rts-desktop-shell-failure";
    panel.setAttribute("role", "status");
    panel.style.cssText = [
      "position:fixed",
      "left:16px",
      "bottom:16px",
      "z-index:2147483647",
      "max-width:min(420px,calc(100vw - 32px))",
      "padding:12px 14px",
      "border:1px solid rgba(154,47,47,.35)",
      "border-radius:8px",
      "background:#fff",
      "color:#181a1b",
      "box-shadow:0 12px 36px rgba(0,0,0,.18)",
      "font:13px/1.35 system-ui,-apple-system,BlinkMacSystemFont,'Segoe UI',sans-serif"
    ].join(";");
    panel.textContent = message;
    document.body?.append(panel);
  };
  const mergeDiagnostics = (snapshot) => {
    if (!snapshot || typeof snapshot !== "object") return snapshot;
    diagnostics.active = !!snapshot.active;
    diagnostics.nativeEventsReceived = Number(snapshot.nativeEventsReceived || diagnostics.nativeEventsReceived);
    diagnostics.droppedEvents = Number(snapshot.droppedEvents || diagnostics.droppedEvents);
    diagnostics.lastReason = snapshot.lastReason || diagnostics.lastReason;
    diagnostics.lastError = snapshot.lastError || null;
    return snapshot;
  };
  const dispatchNativeEvent = (detail) => {
    if (!detail || typeof detail !== "object") return;
    diagnostics.nativeEventsReceived = Number(detail.nativeEventsReceived || diagnostics.nativeEventsReceived + 1);
    diagnostics.jsEventsProcessed += 1;
    if (Number.isFinite(detail.sequence)) {
      if (diagnostics.lastSequence && detail.sequence > diagnostics.lastSequence + 1) {
        diagnostics.droppedEvents += detail.sequence - diagnostics.lastSequence - 1;
      }
      diagnostics.lastSequence = detail.sequence;
    }
    if (Number.isFinite(detail.sentAtMs)) {
      diagnostics.lastDeliveryLatencyMs = Math.max(0, Date.now() - detail.sentAtMs);
    }
    if (detail.type === "capture") diagnostics.active = false;
    for (const listener of Array.from(listeners)) {
      try {
        listener(detail);
      } catch (err) {
        diagnostics.lastError = err && err.message ? err.message : String(err);
      }
    }
  };
  Object.defineProperty(window, "__RTS_NATIVE_CURSOR", {
    value: Object.freeze({
      supported: () => true,
      backend: "native-macos",
      visual: "dom-event-time",
      start: (bounds = {}) => invoke("maccursor_start", {
        x: Number(bounds.x || 0),
        y: Number(bounds.y || 0),
        width: Number(bounds.width || 0),
        height: Number(bounds.height || 0)
      }).then((snapshot) => {
        mergeDiagnostics(snapshot);
        diagnostics.active = !!snapshot?.active;
        return snapshot;
      }).catch((err) => {
        diagnostics.active = false;
        diagnostics.lastError = err && err.message ? err.message : String(err);
        diagnostics.lastReason = "capture-start-failed";
        void desktopLogEvent("native_cursor_capture_start_failed", diagnostics.lastError);
        showDesktopShellFailure("Native cursor capture failed. Logs are available from the startup screen.");
        throw err;
      }),
      configure: (bounds = {}) => invoke("maccursor_configure", {
        width: Number(bounds.width || 0),
        height: Number(bounds.height || 0)
      }).then(mergeDiagnostics),
      stop: (reason = "js-stop") => invoke("maccursor_stop", { reason }).then((snapshot) => {
        mergeDiagnostics(snapshot);
        diagnostics.active = false;
        return snapshot;
      }),
      diagnostics: () => Object.freeze({ ...diagnostics }),
      nativeDiagnostics: () => invoke("maccursor_diagnostics").then(mergeDiagnostics),
      onEvent: (listener) => {
        if (typeof listener !== "function") return () => {};
        listeners.add(listener);
        return () => listeners.delete(listener);
      },
      __dispatchNativeEvent: dispatchNativeEvent
    }),
    configurable: false,
    writable: false
  });

  const elementProto = typeof Element !== "undefined" ? Element.prototype : null;
  const htmlElementProto = typeof HTMLElement !== "undefined" ? HTMLElement.prototype : null;
  replace(elementProto, "requestPointerLock");
  replace(elementProto, "webkitRequestPointerLock");
  replace(htmlElementProto, "requestPointerLock");
  replace(htmlElementProto, "webkitRequestPointerLock");
  /* RTS_NATIVE_CURSOR_END */"###;

/// Text between the native cursor section and the automation helpers.
pub const SCRIPT_BEFORE_AUTOMATION: &'static str = r###"

"###;

/// Text between the autostart and autolock helpers.
pub const SCRIPT_BETWEEN_AUTOMATION: &'static str = r###"
"###;

/// Closing of the page runtime script.
pub const SCRIPT_TAIL: &'static str = r###"
})();
"###;

/// Automation that creates a lobby, joins it and starts the match.
pub const AUTOSTART_SCRIPT: &'static str = r###"
  const desktopAutostartSleep = (ms) => new Promise((resolve) => setTimeout(resolve, ms));
  const desktopAutostartWaitFor = async (probe, timeoutMs = 10000) => {
    const deadline = Date.now() + timeoutMs;
    while (Date.now() < deadline) {
      const value = probe();
      if (value) return value;
      await desktopAutostartSleep(100);
    }
    throw new Error("desktop autostart timed out");
  };
  const desktopAutostartNote = (message) => {
    diagnostics.lastReason = `autostart:${message}`;
    window.__RTS_DESKTOP_AUTOSTART_STATUS = message;
    console.warn("[RTS_DESKTOP_AUTOSTART]", message);
  };
  const desktopAutostartInput = (el, value) => {
    if (!el) return;
    el.value = value;
    el.dispatchEvent(new Event("input", { bubbles: true }));
    el.dispatchEvent(new Event("change", { bubbles: true }));
  };
  const desktopAutostart = async () => {
    desktopAutostartNote("waiting-for-lobby");
    await desktopAutostartWaitFor(() => document.querySelector("#lobby-name"));
    await desktopAutostartSleep(250);
    const room = `Desktop Cursor ${Date.now().toString(36)}`;
    desktopAutostartInput(document.querySelector("#lobby-name"), "Commander");
    desktopAutostartInput(document.querySelector("#lobby-room"), room);
    desktopAutostartNote(`creating:${room}`);
    const response = await fetch("/api/lobbies", {
      method: "POST",
      headers: { "Content-Type": "application/json" },
      body: JSON.stringify({ room })
    });
    if (!response.ok && response.status !== 409) {
      throw new Error(`lobby create failed ${response.status}`);
    }
    document.querySelector("#lobby-join")?.click();
    desktopAutostartNote(`joining:${room}`);
    const startButton = await desktopAutostartWaitFor(() => {
      const button = document.querySelector("#lobby-start");
      return button && !button.disabled ? button : null;
    }).catch(async () => {
      const ready = document.querySelector("#lobby-ready");
      if (ready && !ready.disabled) ready.click();
      return await desktopAutostartWaitFor(() => {
        const button = document.querySelector("#lobby-start");
        return button && !button.disabled ? button : null;
      });
    });
    startButton.click();
    desktopAutostartNote(`started:${room}`);
  };
  const runDesktopAutostart = () => {
    void desktopAutostart().catch((err) => {
      diagnostics.lastError = err && err.message ? err.message : String(err);
      diagnostics.lastReason = "autostart-failed";
      void desktopLogEvent("desktop_autostart_failed", diagnostics.lastError);
      console.error("[RTS_DESKTOP_AUTOSTART]", diagnostics.lastError);
    });
  };
  if (document.readyState === "loading") {
    document.addEventListener("DOMContentLoaded", runDesktopAutostart, { once: true });
  } else {
    runDesktopAutostart();
  }
"###;

/// Automation that turns on cursor lock from the settings once a match shows.
pub const AUTOLOCK_SCRIPT: &'static str = r###"
  const runDesktopAutolock = () => {
    void (async () => {
      const sleep = (ms) => new Promise((resolve) => setTimeout(resolve, ms));
      const waitFor = async (probe, timeoutMs = 10000) => {
        const deadline = Date.now() + timeoutMs;
        while (Date.now() < deadline) {
          const value = probe();
          if (value) return value;
          await sleep(100);
        }
        throw new Error("desktop autolock timed out");
      };
      const note = (message) => {
        diagnostics.lastReason = `autolock:${message}`;
        window.__RTS_DESKTOP_AUTOLOCK_STATUS = message;
        console.warn("[RTS_DESKTOP_AUTOLOCK]", message);
      };
      note("waiting-for-match");
      await waitFor(() => {
        const screen = document.querySelector("#game-screen");
        return screen && !screen.hidden ? screen : null;
      }, 15000);
      await waitFor(() => document.querySelector("#viewport canvas") || document.querySelector("#viewport"), 5000);
      await sleep(500);
      const settingsButton = await waitFor(() => {
        const button = document.querySelector("#settings-button");
        return button && !button.disabled ? button : null;
      }, 5000);
      settingsButton.click();
      note("settings-opened");
      const lockButton = await waitFor(() => {
        const button = document.querySelector("#pointer-lock-toggle");
        return button && !button.hidden && !button.disabled ? button : null;
      }, 5000);
      if (lockButton.getAttribute("aria-checked") === "true") {
        note("cursor-lock-already-active");
      } else {
        lockButton.click();
        note("cursor-lock-clicked");
      }
    })().catch((err) => {
      diagnostics.lastError = err && err.message ? err.message : String(err);
      diagnostics.lastReason = "autolock-failed";
      void desktopLogEvent("desktop_autolock_failed", diagnostics.lastError);
      console.error("[RTS_DESKTOP_AUTOLOCK]", diagnostics.lastError);
    });
  };
  if (document.readyState === "loading") {
    document.addEventListener("DOMContentLoaded", runDesktopAutolock, { once: true });
  } else {
    runDesktopAutolock();
  }
"###;


/// The hexadecimal digit of `n` (below 16), lower case.
pub open spec fn hex_digit(n: u32) -> char {
    if n < 10 {
        (48 + n) as char
    } else {
        (87 + n) as char
    }
}

/// How `serde_json` writes `c` inside a JSON string: `"` and `\` behind a backslash; the
/// control characters below U+0020 as `\b`, `\t`, `\n`, `\f`, `\r`, or else `\u00` and two
/// lower-case hex digits; every other character as it is.
pub open spec fn json_escaped_char(c: char) -> Seq<char> {
    let n = c as u32;
    if c == '"' {
        seq!['\\', '"']
    } else if c == '\\' {
        seq!['\\', '\\']
    } else if n == 8 {
        seq!['\\', 'b']
    } else if n == 9 {
        seq!['\\', 't']
    } else if n == 10 {
        seq!['\\', 'n']
    } else if n == 12 {
        seq!['\\', 'f']
    } else if n == 13 {
        seq!['\\', 'r']
    } else if n < 32 {
        seq!['\\', 'u', '0', '0', hex_digit(n / 16), hex_digit(n % 16)]
    } else {
        seq![c]
    }
}

/// The characters of `s`, each written as `json_escaped_char` writes it.
pub open spec fn json_escaped(s: Seq<char>) -> Seq<char>
    decreases s.len(),
{
    if s.len() == 0 {
        Seq::empty()
    } else {
        json_escaped(s.drop_last()) + json_escaped_char(s.last())
    }
}

/// The JSON text of an optional string as `serde_json` writes it: `null` for none, else the
/// string, escaped, between double quotes.
pub open spec fn json_text(value: Option<Seq<char>>) -> Seq<char> {
    match value {
        Some(s) => seq!['"'] + json_escaped(s) + seq!['"'],
        None => "null"@,
    }
}

pub open spec fn opt_str_view(value: Option<&str>) -> Option<Seq<char>> {
    match value {
        Some(s) => Some(s@),
        None => None,
    }
}

/// `serde_json::to_string` on an optional string slice. Claimed: it writes `json_text` of the
/// value. Its only error is one of the writer, and the `Vec` it writes into reports none, so
/// the error arm is never taken.
#[verifier::external_body]
fn json_text_of(value: Option<&str>) -> (r: String)
    ensures
        r@ == json_text(opt_str_view(value)),
{
    match serde_json::to_string(&value) {
        Ok(text) => text,
        Err(_) => String::new(),
    }
}

/// How the options of the runtime script are chosen: the platform policy, the developer
/// server the shell was pointed at, and which automation helpers the script carries.
pub struct RuntimeScriptOptions {
    pub policy: RuntimePolicy,
    pub developer_server_url: Option<String>,
    pub autostart: bool,
    pub autolock: bool,
}

pub open spec fn bool_text(b: bool) -> Seq<char> {
    if b {
        "true"@
    } else {
        "false"@
    }
}

fn bool_str(b: bool) -> (r: &'static str)
    ensures
        r@ == bool_text(b),
{
    if b {
        "true"
    } else {
        "false"
    }
}

/// The JSON object of one profile, its four fields in order.
pub open spec fn profile_json(p: ProfileView) -> Seq<char> {
    "{\"id\":"@ + json_text(Some(p.0)) + ",\"label\":"@ + json_text(Some(p.1)) + ",\"url\":"@
        + json_text(Some(p.2)) + ",\"summary\":"@ + json_text(Some(p.3)) + "}"@
}

/// The profile objects of `ps` separated by commas.
pub open spec fn profile_items_json(ps: Seq<ProfileView>) -> Seq<char>
    decreases ps.len(),
{
    if ps.len() == 0 {
        Seq::empty()
    } else if ps.len() == 1 {
        profile_json(ps.last())
    } else {
        profile_items_json(ps.drop_last()) + ","@ + profile_json(ps.last())
    }
}

/// The JSON array of the built-in profiles.
pub open spec fn profiles_json() -> Seq<char> {
    "["@ + profile_items_json(built_in_profiles_spec()) + "]"@
}

/// `script` run only outside the startup screen.
pub open spec fn gated_spec(script: Seq<char>) -> Seq<char> {
    "\n  if (runtime.serverMode !== \"startup\") {\n"@ + script + "\n  }\n"@
}

/// An automation helper that only runs once the page is not the startup screen.
pub fn gated_automation_script(script: &'static str) -> (r: String)
    ensures
        r@ == gated_spec(script@),
{
    let mut out = String::from_str("\n  if (runtime.serverMode !== \"startup\") {\n");
    out.append(script);
    out.append("\n  }\n");
    out
}

/// The autostart helper's script.
pub fn desktop_autostart_script() -> (r: &'static str)
    ensures
        r@ == AUTOSTART_SCRIPT@,
{
    AUTOSTART_SCRIPT
}

/// The autolock helper's script.
pub fn desktop_autolock_script() -> (r: &'static str)
    ensures
        r@ == AUTOLOCK_SCRIPT@,
{
    AUTOLOCK_SCRIPT
}

/// The runtime script for the given JSON texts of the profiles, the default profile id,
/// the developer server URL and the platform name.
pub open spec fn runtime_script_text(
    options_policy: RuntimePolicy,
    autostart: bool,
    autolock: bool,
    profiles: Seq<char>,
    default_id: Seq<char>,
    developer_url: Seq<char>,
    platform: Seq<char>,
) -> Seq<char> {
    SCRIPT_BEFORE_PROFILES@ + profiles + SCRIPT_BEFORE_DEFAULT_PROFILE@ + default_id
        + SCRIPT_BEFORE_DEVELOPER_URL@ + developer_url + SCRIPT_BEFORE_PLATFORM@ + platform
        + SCRIPT_BEFORE_NATIVE_BACKEND@ + bool_text(options_policy.native_cursor_backend)
        + SCRIPT_BEFORE_NATIVE_CAPTURE@ + bool_text(options_policy.native_cursor_capture)
        + SCRIPT_BEFORE_POINTER_LOCK@ + bool_text(options_policy.pointer_lock_disabled)
        + SCRIPT_BEFORE_AGGRESSIVE_LOCK@ + bool_text(options_policy.aggressive_cursor_lock)
        + SCRIPT_BEFORE_AUTOSTART_FLAG@ + bool_text(autostart) + SCRIPT_BEFORE_AUTOLOCK_FLAG@
        + bool_text(autolock) + SCRIPT_BEFORE_NATIVE_SECTION@ + (if options_policy.native_cursor_backend {
        NATIVE_CURSOR_SECTION@
    } else {
        Seq::empty()
    }) + SCRIPT_BEFORE_AUTOMATION@ + (if autostart {
        gated_spec(AUTOSTART_SCRIPT@)
    } else {
        Seq::empty()
    }) + SCRIPT_BETWEEN_AUTOMATION@ + (if autolock {
        gated_spec(AUTOLOCK_SCRIPT@)
    } else {
        Seq::empty()
    }) + SCRIPT_TAIL@
}

pub open spec fn opt_string_view(value: Option<String>) -> Option<Seq<char>> {
    match value {
        Some(s) => Some(s@),
        None => None,
    }
}

/// The runtime script for `options`.
pub open spec fn runtime_script_spec(options: &RuntimeScriptOptions) -> Seq<char> {
    runtime_script_text(
        options.policy,
        options.autostart,
        options.autolock,
        profiles_json(),
        json_text(Some(DEFAULT_PROFILE_ID@)),
        json_text(opt_string_view(options.developer_server_url)),
        json_text(Some(options.policy.platform.runtime_name_spec())),
    )
}

fn profiles_json_text() -> (r: String)
    ensures
        r@ == profiles_json(),
{
    let profiles = built_in_profiles();
    let mut items = String::new();
    let mut i: usize = 0;
    while i < profiles.len()
        invariant
            i <= profiles.len(),
            profiles.len() == built_in_profiles_spec().len(),
            forall|k: int|
                0 <= k < profiles.len() ==> crate::shell::profile_view(#[trigger] profiles[k])
                    == built_in_profiles_spec()[k],
            profile_items_json(built_in_profiles_spec().take(i as int)) == items@,
        decreases profiles.len() - i,
    {
        let p = profiles[i];
        let ghost ps = built_in_profiles_spec().take(i + 1);
        proof {
            assert(ps.drop_last() =~= built_in_profiles_spec().take(i as int));
            assert(ps.last() == crate::shell::profile_view(profiles[i as int]));
        }
        let id = json_text_of(Some(p.id));
        let label = json_text_of(Some(p.label));
        let url = json_text_of(Some(p.url));
        let summary = json_text_of(Some(p.summary));
        if i > 0 {
            items.append(",");
        }
        items.append("{\"id\":");
        items.append(id.as_str());
        items.append(",\"label\":");
        items.append(label.as_str());
        items.append(",\"url\":");
        items.append(url.as_str());
        items.append(",\"summary\":");
        items.append(summary.as_str());
        items.append("}");
        i = i + 1;
    }
    proof {
        assert(built_in_profiles_spec().take(profiles.len() as int) =~= built_in_profiles_spec());
    }
    let mut out = String::from_str("[");
    out.append(items.as_str());
    out.append("]");
    out
}

/// The script the shell injects into every page.
pub fn desktop_runtime_script(options: &RuntimeScriptOptions) -> (r: String)
    ensures
        r@ == runtime_script_spec(options),
{
    let profiles = profiles_json_text();
    let default_id = json_text_of(Some(DEFAULT_PROFILE_ID));
    let developer_url = match &options.developer_server_url {
        Some(u) => json_text_of(Some(u.as_str())),
        None => json_text_of(None),
    };
    let platform = json_text_of(Some(options.policy.platform.runtime_name()));
    let policy = options.policy;
    let mut script = String::from_str(SCRIPT_BEFORE_PROFILES);
    script.append(profiles.as_str());
    script.append(SCRIPT_BEFORE_DEFAULT_PROFILE);
    script.append(default_id.as_str());
    script.append(SCRIPT_BEFORE_DEVELOPER_URL);
    script.append(developer_url.as_str());
    script.append(SCRIPT_BEFORE_PLATFORM);
    script.append(platform.as_str());
    script.append(SCRIPT_BEFORE_NATIVE_BACKEND);
    script.append(bool_str(policy.native_cursor_backend));
    script.append(SCRIPT_BEFORE_NATIVE_CAPTURE);
    script.append(bool_str(policy.native_cursor_capture));
    script.append(SCRIPT_BEFORE_POINTER_LOCK);
    script.append(bool_str(policy.pointer_lock_disabled));
    script.append(SCRIPT_BEFORE_AGGRESSIVE_LOCK);
    script.append(bool_str(policy.aggressive_cursor_lock));
    script.append(SCRIPT_BEFORE_AUTOSTART_FLAG);
    script.append(bool_str(options.autostart));
    script.append(SCRIPT_BEFORE_AUTOLOCK_FLAG);
    script.append(bool_str(options.autolock));
    script.append(SCRIPT_BEFORE_NATIVE_SECTION);
    if policy.native_cursor_backend {
        script.append(NATIVE_CURSOR_SECTION);
    }
    script.append(SCRIPT_BEFORE_AUTOMATION);
    if options.autostart {
        let gated = gated_automation_script(desktop_autostart_script());
        script.append(gated.as_str());
    }
    script.append(SCRIPT_BETWEEN_AUTOMATION);
    if options.autolock {
        let gated = gated_automation_script(desktop_autolock_script());
        script.append(gated.as_str());
    }
    script.append(SCRIPT_TAIL);
    script
}

} // verus!
