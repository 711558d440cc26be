pub mod riff;
