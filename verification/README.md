# tineplayer

The decisions behind TinePlayer, a media player that plays a film's
soundtrack on two outputs at once, written in Verus with what each of them
promises stated and proved.

- `src/` is the library. Each module decides something and says exactly
  what in its contracts: which rows the settings screen holds (`rows`), what
  a chooser offers and what picking one of its rows does (`choices`), the chooser each setting
  opens, from what the application holds, and the law that every one of
  them is sound (`chooser`), where
  a key or a gamepad button lands (`input`, `navigation`, `screens`,
  `strip`), which soundtrack each output starts on (`tracks`), how the
  audio-alignment measurements add up (`align`), the readings and language
  lines on screen (`readings`, `markup`, `languages`), the file browser
  (`browser`), the Jellyfin address and pairing (`server`), the things
  counted in time (`timing`), a video's page (`page`), and what the menu
  holds for each output and how a choice, a moved bar or a popover changes
  it (`session`). The laws that hold across functions are public
  proof functions beside the functions they speak of.
- `tests/` runs the library on concrete values.
- `app/` holds what works in floating point or through GStreamer and rustfft:
  decoding audio, its loudness envelopes, the correlation, and the readings
  from the values the widgets hold - and a controller that turns key names
  and chosen rows into the library's steps and applies them.
