# villflow

The verified core of VillFlow, a push-to-talk dictation tool for Windows:
hold a hotkey, speak, and the transcript (optionally cleaned up by a
language model) is typed into the focused field.

`src/` is a Verus library. Every function there carries a contract that
Verus proves; calls into outside crates (serde_json, base64, aes-gcm,
pbkdf2, rand, zeroize) go through small trusted wrappers whose contracts
name what the crate returns.

| module       | what it decides |
|--------------|-----------------|
| `text`       | character sequences: trimming, splitting, matching, case, decimal numbers |
| `order`      | lexicographic order and sorting of words |
| `settings`   | the settings schema, factory defaults, schema migration, input device choice |
| `prompt`     | system/user messages for dictation cleanup and command mode |
| `sanitize`   | cutting echoed field text from model output, spotting rewrites |
| `json`, `codec` | trusted wrappers: JSON lookups, base64, UTF-8 |
| `completion` | cloud errors, cleaning model output, chat request and reply |
| `stt`        | API-key rotation, server messages, audio frames, the WebSocket URL, handshake failures |
| `session`    | the realtime transcription session as a state machine |
| `hotkeys`    | parsing combos and the keyboard hook's decision per key event |
| `keyterms`   | dictionary ordering and the keyterms sent to the recognizer |
| `autolearn`  | edit distance and learning corrected words |
| `engine`     | when hotkeys start/finish utterances, and the finishing pipeline |
| `shell`      | scratchpad toggle debounce and in-app text delivery |
| `vault`      | API keys at rest: passphrase vault sealing, DPAPI framing |
| `focus`      | text near the caret, our own windows, module names, the clipboard selection poll |
| `dictionary` | the stored form of dictionary words and the use-count bumps |

`app/` is the Windows program around the library: the Tauri shell, the
keyboard hook, audio capture, UI Automation, text injection, the overlay,
SQLite storage and the network clients. It performs the actions the
library decides on.

`tests/` exercises the library on concrete values.
