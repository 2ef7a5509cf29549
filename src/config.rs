use vstd::prelude::*;

verus! {

/// Window geometry, colours and font settings of the calculator.
pub struct Config {
    pub window_width: u32,
    pub window_height: u32,
    pub background_color: String,
    pub button_color: String,
    pub button_hover_color: String,
    pub button_pressed_color: String,
    pub font_size: u32,
    pub font_path: Option<String>,
}

/// The settings used when no configuration file can be read.
pub fn create_default_config() -> (c: Config)
    ensures
        c.window_width == 400,
        c.window_height == 600,
        c.background_color@ == "#282c34"@,
        c.button_color@ == "#61afef"@,
        c.button_hover_color@ == "#528bbd"@,
        c.button_pressed_color@ == "#3a6ea5"@,
        c.font_size == 18,
        c.font_path is None,
{
    Config {
        window_width: 400,
        window_height: 600,
        background_color: "#282c34".to_owned(),
        button_color: "#61afef".to_owned(),
        button_hover_color: "#528bbd".to_owned(),
        button_pressed_color: "#3a6ea5".to_owned(),
        font_size: 18,
        font_path: None,
    }
}

} // verus!
