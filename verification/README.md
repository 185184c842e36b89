# wifi

Cross-platform Wi-Fi station control through OS-native APIs (the Windows Native WiFi API,
NetworkManager on Linux, a `PlatformNotSupported` fallback elsewhere), with its logic verified
by Verus.

## Layout

- `src/` — the verified library: the backend-neutral value types (`types`) and every decision
  over what the OS reports.
  - `text` — decimal/hex rendering, ASCII case mapping, whitespace trimming, substring search,
    and the lossy UTF-8 / UTF-16 decoders.
  - `conv` — raw `wlanapi` values (GUIDs, SSIDs, interface states, auth algorithms, stored
    profile XML) to neutral types.
  - `profile` — the connection profile XML a connect stages, and the proof that a staged profile
    reads back as the security it was built with.
  - `wlan` — notification handling, connect outcomes, and folding interface, status, network and
    profile lists (de-duplicated by SSID, strongest signal kept; priorities by OS preference).
  - `ipconfig` — picking the Wi-Fi adapter and sorting its MAC and addresses.
  - `connectivity`, `radio` — internet reachability, radio power verdicts, and the per-radio
    record of a power change (done only when every Wi-Fi radio's change was allowed).
  - `dummy`, `linux` — the fallback and the (not yet built) NetworkManager backends.
- `app/` — the async facade (`WiFi`), the `WifiBackend` trait, and the platform backends that
  make the OS calls and hand their results to the library.
- `tests/` — tests of the library on concrete values.
