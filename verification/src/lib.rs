pub mod acoustic;
pub mod align_tts;
pub mod alignment;
pub mod audio;
pub mod benchmark;
pub mod checkpoint;
pub mod delightful_tts;
pub mod double;
pub mod expansion;
pub mod fast_pitch;
pub mod fastspeech;
pub mod glow_tts;
pub mod graphemes;
pub mod hifigan;
pub mod json;
pub mod layers;
pub mod layout;
pub mod matrix;
pub mod melgan;
pub mod recurrence;
pub mod request;
pub mod sorting;
pub mod speedy_speech;
pub mod tacotron;
pub mod text;
pub mod tokens;
pub mod training;
pub mod upsampling;
pub mod vits;
pub mod vits_decoder;
