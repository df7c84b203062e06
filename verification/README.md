# Perihelion

Perihelion runs a Qwen3 ASR model on your own machine and connects it to VRChat:
what you say appears in the chatbox, and an avatar parameter, a button or nothing
at all decides when it listens.

The logic is a library that Verus verifies; the program around it opens the
window, the sockets, the files and the microphone.

## First launch

Where no model is there, the program downloads the small one (about 1 GB) by
itself. Every later launch loads a model that is there at once: the small one
where both are.

## Hardware processor

The recogniser computes on the `CPU`, on a `GPU` by DirectML, or on a `GPU-CUDA`.
The factory setting is the CPU.

## When something breaks

- A download that failed can be started again at once. One that broke off never
  passes for a finished file.
- *Delete* on the Manage page removes the files of a model, also of one that
  failed. It can be downloaded again immediately.
- *Reset Config* in the Danger Zone of the Settings page brings every setting
  back to its factory default.

## The library (`src/`)

| Module | What it holds |
| --- | --- |
| `text` | searching, removing, trimming, cutting and parsing text |
| `osc` | OSC messages: what the avatar asks for, what goes to the chatbox |
| `audio` | resampling plans, channels, and the detector that tells speech from silence |
| `engine` | the models and their files, cleaning of transcripts, the sample buffer |
| `download` | the files of a model, one after the other, and the reports on the way |
| `devices` | the list of microphones |
| `config` | languages, modes, processors, settings |
| `storage` | where files are kept |
| `status`, `events`, `actions`, `view` | what the parts tell each other |
| `model` | the state as a value, and how each event changes it |
| `app` | the state of the program; each method follows `model` |
| `pages` | what the window says |
| `laws` | what holds across events |

A method of `app::PerihelionApp` changes the state and returns the `Action`s that
the program has to perform. `model` says exactly what they are.

Single-precision floats are held as their IEEE 754 bits.

## What is not proved

- `rosc` encodes and decodes OSC packets. `osc::parts`, `osc::decode_udp` and
  `osc::encode` say what is relied on.
- `dirs` names the user's directories. Nothing is claimed of them.
- Everything under `app/`: the window, threads, sockets, downloads, the
  recogniser, and arithmetic on floats.

## The program (`app/`)

It needs `cpal` for the microphone and `sherpa-onnx` for the recogniser, and the
fonts `font.woff2` and `title.woff2` in a directory `assets` beside it.
