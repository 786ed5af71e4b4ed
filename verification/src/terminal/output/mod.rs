pub mod xterm;
