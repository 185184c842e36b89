//! Wi-Fi radio power — the switch the OS "Wi-Fi off" / airplane-mode toggle drives (WinRT
//! `Windows.Devices.Radios`). The caller performs the WinRT calls; the decisions over their
//! results are made here.
use vstd::prelude::*;
use crate::text::{push_signed_decimal, signed_decimal};
use crate::types::{Result, WifiError};

verus! {

/// `RadioKind::WiFi`.
pub const RADIO_KIND_WIFI: i32 = 1;

/// `RadioState::On`.
pub const RADIO_STATE_ON: i32 = 1;

/// `RadioState::Off`.
pub const RADIO_STATE_OFF: i32 = 2;

/// `RadioAccessStatus::Allowed`.
pub const RADIO_ACCESS_ALLOWED: i32 = 1;

/// The text of a failed WinRT call: the call's label, then the error's text.
pub open spec fn os_message(label: Seq<char>, error: Seq<char>) -> Seq<char> {
    label + ": "@ + error
}

/// Map a WinRT failure to an [`WifiError::OsApi`] tagged with the call that produced it.
pub fn os(label: &str, error: &str) -> (e: WifiError)
    ensures
        e matches WifiError::OsApi(m) && m@ == os_message(label@, error@),
{
    let mut m = String::from_str(label);
    m.append(": ");
    m.append(error);
    WifiError::OsApi(m)
}

/// What was read of one radio: its `Kind()`, and — only for a Wi-Fi radio — its `State()`.
#[derive(Debug)]
pub struct RadioReading {
    pub kind: core::result::Result<i32, String>,
    pub state: Option<core::result::Result<i32, String>>,
}

/// The verdict on the radios from index `i` on: the first failed read is the error (given by
/// its message text); the first Wi-Fi radio that is on makes it `true`; otherwise `false`.
pub open spec fn enabled_from(radios: Seq<RadioReading>, i: int) -> core::result::Result<
    bool,
    Seq<char>,
>
    decreases radios.len() - i,
{
    if i < 0 || i >= radios.len() {
        Ok(false)
    } else {
        match radios[i].kind {
            Err(e) => Err(os_message("Radio.Kind"@, e@)),
            Ok(kind) => if kind != RADIO_KIND_WIFI {
                enabled_from(radios, i + 1)
            } else {
                match radios[i].state {
                    Some(Err(e)) => Err(os_message("Radio.State"@, e@)),
                    Some(Ok(state)) => if state == RADIO_STATE_ON {
                        Ok(true)
                    } else {
                        enabled_from(radios, i + 1)
                    },
                    None => enabled_from(radios, i + 1),
                }
            },
        }
    }
}

/// A verdict carried as a `Result`, its error as an OS error with that text.
pub open spec fn verdict_matches(r: Result<bool>, v: core::result::Result<bool, Seq<char>>) -> bool {
    match v {
        Ok(b) => r == Ok::<bool, WifiError>(b),
        Err(m) => r matches Err(WifiError::OsApi(t)) && t@ == m,
    }
}

/// True if any Wi-Fi radio is currently powered on. `radios` is what `GetRadiosAsync` gave: the
/// error text, or a reading of each radio in order.
pub fn is_enabled(radios: &core::result::Result<Vec<RadioReading>, String>) -> (r: Result<bool>)
    ensures
        *radios matches Err(err) ==> (r matches Err(WifiError::OsApi(m)) && m@ == os_message(
            "GetRadiosAsync"@,
            err@,
        )),
        *radios matches Ok(v) ==> verdict_matches(r, enabled_from(v@, 0)),
{
    let v = match radios {
        Err(e) => return Err(os("GetRadiosAsync", e.as_str())),
        Ok(v) => v,
    };
    assert(*radios == Ok::<Vec<RadioReading>, String>(*v));
    let mut i: usize = 0;
    while i < v.len()
        invariant
            i <= v@.len(),
            enabled_from(v@, 0) == enabled_from(v@, i as int),
            *radios == Ok::<Vec<RadioReading>, String>(*v),
        decreases v@.len() - i,
    {
        match &v[i].kind {
            Err(e) => return Err(os("Radio.Kind", e.as_str())),
            Ok(kind) => {
                if *kind == RADIO_KIND_WIFI {
                    match &v[i].state {
                        Some(Err(e)) => return Err(os("Radio.State", e.as_str())),
                        Some(Ok(state)) => {
                            if *state == RADIO_STATE_ON {
                                return Ok(true);
                            }
                        },
                        None => {},
                    }
                }
            },
        }
        i = i + 1;
    }
    Ok(false)
}

/// Every radio's kind was read, and the state of every Wi-Fi radio.
pub open spec fn all_read(radios: Seq<RadioReading>) -> bool {
    forall|k: int|
        0 <= k < radios.len() ==> (#[trigger] radios[k]).kind is Ok && (radios[k].kind == Ok::<
            i32,
            String,
        >(RADIO_KIND_WIFI) ==> radios[k].state matches Some(Ok(_)))
}

/// Radio `k` is a Wi-Fi radio that reads as powered on.
pub open spec fn wifi_on_at(radios: Seq<RadioReading>, k: int) -> bool {
    radios[k].kind == Ok::<i32, String>(RADIO_KIND_WIFI) && radios[k].state == Some(
        Ok::<i32, String>(RADIO_STATE_ON),
    )
}

proof fn lemma_any_on(radios: Seq<RadioReading>, i: int)
    requires
        0 <= i <= radios.len(),
        all_read(radios),
    ensures
        enabled_from(radios, i) == Ok::<bool, Seq<char>>(
            exists|k: int| i <= k < radios.len() && #[trigger] wifi_on_at(radios, k),
        ),
    decreases radios.len() - i,
{
    if i < radios.len() {
        lemma_any_on(radios, i + 1);
        assert(radios[i].kind is Ok);
        if wifi_on_at(radios, i) {
        } else {
            assert((exists|k: int| i <= k < radios.len() && #[trigger] wifi_on_at(radios, k)) == (
            exists|k: int| i + 1 <= k < radios.len() && #[trigger] wifi_on_at(radios, k)));
        }
    }
}

/// The radio is on when any Wi-Fi radio is on: with every kind (and every Wi-Fi radio's state)
/// read, `is_enabled` answers `Ok(true)` exactly when some Wi-Fi radio reads as powered on,
/// whatever the other Wi-Fi radios read.
pub proof fn law_enabled_iff_any_wifi_on(radios: Seq<RadioReading>, r: Result<bool>)
    requires
        all_read(radios),
        verdict_matches(r, enabled_from(radios, 0)),
    ensures
        r == Ok::<bool, WifiError>(exists|k: int| 0 <= k < radios.len() && #[trigger] wifi_on_at(radios, k)),
{
    lemma_any_on(radios, 0);
}

/// The `RadioState` a power change applies to every Wi-Fi radio.
pub open spec fn target_state(on: bool) -> i32 {
    if on {
        RADIO_STATE_ON
    } else {
        RADIO_STATE_OFF
    }
}

/// Every radio's kind was read, and every Wi-Fi radio reads back in state `state`.
pub open spec fn wifi_radios_read_as(radios: Seq<RadioReading>, state: i32) -> bool {
    forall|k: int|
        0 <= k < radios.len() ==> (#[trigger] radios[k]).kind is Ok && (radios[k].kind == Ok::<
            i32,
            String,
        >(RADIO_KIND_WIFI) ==> radios[k].state == Some(Ok::<i32, String>(state)))
}

proof fn lemma_all_off(radios: Seq<RadioReading>, i: int)
    requires
        0 <= i <= radios.len(),
        wifi_radios_read_as(radios, RADIO_STATE_OFF),
    ensures
        enabled_from(radios, i) == Ok::<bool, Seq<char>>(false),
    decreases radios.len() - i,
{
    if i < radios.len() {
        assert(radios[i].kind is Ok);
        lemma_all_off(radios, i + 1);
    }
}

proof fn lemma_one_on(radios: Seq<RadioReading>, i: int, w: int)
    requires
        0 <= i <= w < radios.len(),
        wifi_radios_read_as(radios, RADIO_STATE_ON),
        radios[w].kind == Ok::<i32, String>(RADIO_KIND_WIFI),
    ensures
        enabled_from(radios, i) == Ok::<bool, Seq<char>>(true),
    decreases w - i,
{
    assert(radios[i].kind is Ok);
    if i < w {
        lemma_one_on(radios, i + 1, w);
    }
}

/// Readings in which every Wi-Fi radio is in the state a power change applies give that change's
/// value: when every Wi-Fi radio reads back as `target_state(on)` and there is at least one
/// Wi-Fi radio, the verdict of `is_enabled` over those readings is `on`.
pub proof fn law_radio_round_trip(on: bool, radios: Seq<RadioReading>)
    requires
        wifi_radios_read_as(radios, target_state(on)),
        exists|w: int|
            0 <= w < radios.len() && #[trigger] radios[w].kind == Ok::<i32, String>(
                RADIO_KIND_WIFI,
            ),
    ensures
        enabled_from(radios, 0) == Ok::<bool, Seq<char>>(on),
{
    if on {
        let w = choose|w: int|
            0 <= w < radios.len() && #[trigger] radios[w].kind == Ok::<i32, String>(
                RADIO_KIND_WIFI,
            );
        lemma_one_on(radios, 0, w);
    } else {
        lemma_all_off(radios, 0);
    }
}

/// The text of a refused radio-access request: the `RadioAccessStatus` as `{:?}` prints it.
pub open spec fn access_denied_message(status: i32) -> Seq<char> {
    "radio access not allowed: RadioAccessStatus("@ + signed_decimal(status as int) + ")"@
}

/// The text `finish` gives when a Wi-Fi radio was visited but never confirmed switched.
pub open spec fn unswitched_message() -> Seq<char> {
    os_message("SetStateAsync"@, "not every Wi-Fi radio was switched"@)
}

/// Some visited radio is a Wi-Fi radio.
pub open spec fn has_wifi(radios: Seq<(i32, bool)>) -> bool {
    exists|k: int| 0 <= k < radios.len() && (#[trigger] radios[k]).0 == RADIO_KIND_WIFI
}

/// Every visited Wi-Fi radio was confirmed switched.
pub open spec fn all_switched(radios: Seq<(i32, bool)>) -> bool {
    forall|k: int| 0 <= k < radios.len() && (#[trigger] radios[k]).0 == RADIO_KIND_WIFI ==> radios[k].1
}

/// The last visited radio is a Wi-Fi radio whose switch has not been confirmed yet.
pub open spec fn awaiting(radios: Seq<(i32, bool)>) -> bool {
    radios.len() > 0 && radios.last().0 == RADIO_KIND_WIFI && !radios.last().1
}

/// A radio power change in progress: the state every Wi-Fi radio is set to, and each radio
/// visited so far, in order: its `RadioKind`, and whether it was confirmed switched (a Wi-Fi
/// radio whose `SetStateAsync` reported `Allowed`).
#[derive(Debug)]
pub struct RadioSwitch {
    /// The `RadioState` to apply.
    pub target: i32,
    /// The radios visited: kind, and whether the change was confirmed for it.
    pub radios: Vec<(i32, bool)>,
}

/// Power every Wi-Fi radio on or off — the OS "Wi-Fi off" / airplane switch: the first step.
/// `access` is what `RequestAccessAsync` gave (the status, or the error text). Requires the radio
/// access grant (always allowed for a desktop app); a denial surfaces as an error. On success the
/// caller walks the radios with [`RadioSwitch::visit`], sets each Wi-Fi radio to `target` and
/// hands what `SetStateAsync` reported to [`RadioSwitch::applied`], and ends with
/// [`RadioSwitch::finish`].
pub fn set_enabled(on: bool, access: core::result::Result<i32, String>) -> (r: Result<
    RadioSwitch,
>)
    ensures
        access matches Err(e) ==> (r matches Err(WifiError::OsApi(m)) && m@ == os_message(
            "RequestAccessAsync"@,
            e@,
        )),
        access matches Ok(a) ==> (a != RADIO_ACCESS_ALLOWED ==> (r matches Err(WifiError::OsApi(m))
            && m@ == access_denied_message(a))),
        access matches Ok(a) ==> (a == RADIO_ACCESS_ALLOWED ==> (r matches Ok(sw) && sw.radios@
            == Seq::<(i32, bool)>::empty() && sw.target == target_state(on))),
{
    let a = match access {
        Err(e) => return Err(os("RequestAccessAsync", e.as_str())),
        Ok(a) => a,
    };
    if a != RADIO_ACCESS_ALLOWED {
        let mut m = String::from_str("radio access not allowed: RadioAccessStatus(");
        push_signed_decimal(&mut m, a);
        m.append(")");
        return Err(WifiError::OsApi(m));
    }
    let target = if on {
        RADIO_STATE_ON
    } else {
        RADIO_STATE_OFF
    };
    Ok(RadioSwitch { target, radios: Vec::new() })
}

impl RadioSwitch {
    /// Visit the next radio given its `Kind()` reading: an error ends the change; `Ok(true)`
    /// means this is a Wi-Fi radio, to be set to `target` and its outcome handed to `applied`.
    pub fn visit(&mut self, kind: core::result::Result<i32, String>) -> (r: Result<bool>)
        ensures
            final(self).target == old(self).target,
            kind is Err ==> final(self).radios@ == old(self).radios@,
            kind matches Err(e) ==> (r matches Err(WifiError::OsApi(m)) && m@ == os_message(
                "Radio.Kind"@,
                e@,
            )),
            kind matches Ok(k) ==> r == Ok::<bool, WifiError>(k == RADIO_KIND_WIFI),
            kind matches Ok(k) ==> final(self).radios@ == old(self).radios@.push((k, false)),
    {
        match kind {
            Err(e) => Err(os("Radio.Kind", e.as_str())),
            Ok(k) => {
                self.radios.push((k, false));
                Ok(k == RADIO_KIND_WIFI)
            },
        }
    }

    /// Record what `SetStateAsync` reported for the Wi-Fi radio just visited (the
    /// `RadioAccessStatus`, or the error text). Only `Allowed` confirms the switch; an error or
    /// any other status is returned as an error and leaves the radio unconfirmed.
    pub fn applied(&mut self, status: core::result::Result<i32, String>) -> (r: Result<()>)
        ensures
            final(self).target == old(self).target,
            (status == Ok::<i32, String>(RADIO_ACCESS_ALLOWED) && awaiting(old(self).radios@))
                ==> final(self).radios@ == old(self).radios@.update(
                old(self).radios@.len() - 1,
                (RADIO_KIND_WIFI, true),
            ),
            !(status == Ok::<i32, String>(RADIO_ACCESS_ALLOWED) && awaiting(old(self).radios@))
                ==> final(self).radios@ == old(self).radios@,
            status matches Err(e) ==> (r matches Err(WifiError::OsApi(m)) && m@ == os_message(
                "SetStateAsync"@,
                e@,
            )),
            status matches Ok(a) ==> (a != RADIO_ACCESS_ALLOWED ==> (r matches Err(
                WifiError::OsApi(m),
            ) && m@ == os_message("SetStateAsync"@, access_denied_message(a)))),
            status matches Ok(a) ==> (a == RADIO_ACCESS_ALLOWED ==> r is Ok),
    {
        let a = match status {
            Err(e) => return Err(os("SetStateAsync", e.as_str())),
            Ok(a) => a,
        };
        if a != RADIO_ACCESS_ALLOWED {
            let mut m = String::from_str("radio access not allowed: RadioAccessStatus(");
            push_signed_decimal(&mut m, a);
            m.append(")");
            return Err(os("SetStateAsync", m.as_str()));
        }
        let n = self.radios.len();
        if n > 0 {
            let (k, done) = self.radios[n - 1];
            if k == RADIO_KIND_WIFI && !done {
                self.radios.set(n - 1, (k, true));
            }
        }
        Ok(())
    }

    /// The outcome once every radio was visited: `NotFound` when there was no Wi-Fi radio at
    /// all; an error when some Wi-Fi radio was not confirmed switched; success otherwise.
    pub fn finish(&self) -> (r: Result<()>)
        ensures
            r is Ok <==> has_wifi(self.radios@) && all_switched(self.radios@),
            !has_wifi(self.radios@) ==> r matches Err(WifiError::NotFound),
            has_wifi(self.radios@) && !all_switched(self.radios@) ==> (r matches Err(
                WifiError::OsApi(m),
            ) && m@ == unswitched_message()),
    {
        let mut found = false;
        let mut i: usize = 0;
        while i < self.radios.len()
            invariant
                i <= self.radios@.len(),
                found <==> exists|k: int|
                    0 <= k < i && (#[trigger] self.radios@[k]).0 == RADIO_KIND_WIFI,
                forall|k: int|
                    0 <= k < i && (#[trigger] self.radios@[k]).0 == RADIO_KIND_WIFI
                        ==> self.radios@[k].1,
            decreases self.radios@.len() - i,
        {
            let (k, done) = self.radios[i];
            if k == RADIO_KIND_WIFI {
                found = true;
                if !done {
                    return Err(os("SetStateAsync", "not every Wi-Fi radio was switched"));
                }
            }
            i = i + 1;
        }
        if found {
            Ok(())
        } else {
            Err(WifiError::NotFound)
        }
    }
}

/// A completed switch reads back as its value. When `finish` succeeded (some Wi-Fi radio was
/// visited and every one was confirmed), and the radios are read again in the order they were
/// visited — each kind as it was, and each confirmed radio still in the state that its allowed
/// `SetStateAsync` applied, which is what the OS promises of an allowed change that nothing has
/// since undone — the verdict of `is_enabled` over that reading is the value switched to.
pub proof fn law_switch_read_back(sw: RadioSwitch, on: bool, readings: Seq<RadioReading>)
    requires
        sw.target == target_state(on),
        has_wifi(sw.radios@),
        all_switched(sw.radios@),
        readings.len() == sw.radios@.len(),
        forall|k: int|
            0 <= k < readings.len() ==> (#[trigger] readings[k]).kind == Ok::<i32, String>(
                sw.radios@[k].0,
            ),
        forall|k: int|
            0 <= k < readings.len() && (#[trigger] sw.radios@[k]).1 ==> readings[k].state == Some(
                Ok::<i32, String>(sw.target),
            ),
    ensures
        enabled_from(readings, 0) == Ok::<bool, Seq<char>>(on),
{
    assert forall|k: int| 0 <= k < readings.len() implies (#[trigger] readings[k]).kind is Ok && (
    readings[k].kind == Ok::<i32, String>(RADIO_KIND_WIFI) ==> readings[k].state == Some(
        Ok::<i32, String>(target_state(on)),
    )) by {
        if readings[k].kind == Ok::<i32, String>(RADIO_KIND_WIFI) {
            assert(sw.radios@[k].0 == RADIO_KIND_WIFI);
            assert(sw.radios@[k].1);
        }
    }
    let w = choose|w: int| 0 <= w < sw.radios@.len() && (#[trigger] sw.radios@[w]).0 == RADIO_KIND_WIFI;
    assert(readings[w].kind == Ok::<i32, String>(RADIO_KIND_WIFI));
    law_radio_round_trip(on, readings);
}

} // verus!
