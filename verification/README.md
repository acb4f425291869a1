# win-text-inject

Correct text injection into the focused Windows application, for dictation and text-expansion tools,
with its decisions proved in Verus.

Delivering text by "save the clipboard, overwrite it, press Ctrl+V, sleep, restore" has four defects:

1. The text leaks into clipboard history and the cloud clipboard. A private write attaches four
   opt-out formats.
2. Held modifiers corrupt the synthesized chord. Every held modifier is released first, and none is
   pressed again afterwards.
3. Injection into elevated windows fails silently. Integrity levels are compared first, and the text
   is left on the clipboard with an honest outcome where input would be discarded.
4. A restore on a timer races the target's read. The text is published as a delayed-render promise.
   The clipboard is restored after the target was seen reading it, or, where something else had
   consumed the promise before the paste, once the target has had the whole read timeout. Where
   nothing read it, the text stays on offer; where another process took the clipboard, nothing is
   restored.

## Layout

- `src/` is the verified library. It calls no system function. Each exchange with Windows is a
  `Protocol`: `call` says which system call is due, `reply` takes the answer, `result` tells how it
  ended. The files that end in `_laws` state what holds of every run of such an exchange;
  `board_laws` and `delivery_laws` follow the clipboard itself, with its owner, through them.
- `app/` is the system side: it makes the Windows calls and hands the answers back. Its loops compile
  everywhere, the rest only on Windows.
- `tests/` runs whole exchanges against systems held in memory.

## Interaction with a low-level keyboard hook

Every synthesized event carries `INJECT_TAG` in `dwExtraInfo`. An application that installs a
`WH_KEYBOARD_LL` hook to detect its hotkey should skip events with that tag, in addition to checking
`LLKHF_INJECTED`, or the synthesized paste chord will re-enter its own hook.
