use vstd::prelude::*;

verus! {

/// Width and height of a window for which no size was asked.
pub const DEFAULT_WINDOW_SIDE: u32 = 800;

/// Version of the graphics context where none was asked for.
pub const DEFAULT_GL_VERSION: (u8, u8) = (3, 2);

/// What a window is started with: its title and, as far as they were
/// chosen, its size, the version of the graphics context and the file
/// that the debug interface keeps its layout in.
pub struct StartBuilder {
    window_title: String,
    window_width: Option<u32>,
    window_height: Option<u32>,
    gl_version: Option<(u8, u8)>,
    imgui_ini_filename: Option<String>,
}

/// The settings of a `StartBuilder` as a mathematical value.
pub struct StartView {
    pub title: Seq<char>,
    pub size: Option<(u32, u32)>,
    pub gl_version: Option<(u8, u8)>,
    pub ini_filename: Option<Seq<char>>,
}

impl View for StartBuilder {
    type V = StartView;

    closed spec fn view(&self) -> StartView {
        StartView {
            title: self.window_title@,
            size: match (self.window_width, self.window_height) {
                (Some(w), Some(h)) => Some((w, h)),
                _ => None,
            },
            gl_version: self.gl_version,
            ini_filename: match self.imgui_ini_filename {
                Some(name) => Some(name@),
                None => None,
            },
        }
    }
}

impl StartBuilder {
    /// Width and height are chosen together, or not at all.
    #[verifier::type_invariant]
    spec fn inv(self) -> bool {
        self.window_width is Some <==> self.window_height is Some
    }

    /// Settings with a title and nothing else chosen.
    pub fn new(window_title: String) -> (b: StartBuilder)
        ensures
            b@ == (StartView { title: window_title@, size: None, gl_version: None, ini_filename: None }),
    {
        StartBuilder {
            window_title,
            window_width: None,
            window_height: None,
            gl_version: None,
            imgui_ini_filename: None,
        }
    }

    /// The same settings with the given window size.
    pub fn window_size(self, width: u32, height: u32) -> (b: StartBuilder)
        ensures
            b@ == (StartView { size: Some((width, height)), ..self@ }),
    {
        proof {
            use_type_invariant(&self);
        }
        StartBuilder {
            window_title: self.window_title,
            window_width: Some(width),
            window_height: Some(height),
            gl_version: self.gl_version,
            imgui_ini_filename: self.imgui_ini_filename,
        }
    }

    /// The same settings with the given version of the graphics context.
    pub fn gl_version(self, major: u8, minor: u8) -> (b: StartBuilder)
        ensures
            b@ == (StartView { gl_version: Some((major, minor)), ..self@ }),
    {
        proof {
            use_type_invariant(&self);
        }
        StartBuilder {
            window_title: self.window_title,
            window_width: self.window_width,
            window_height: self.window_height,
            gl_version: Some((major, minor)),
            imgui_ini_filename: self.imgui_ini_filename,
        }
    }

    /// The same settings with the given layout file of the debug interface.
    pub fn imgui_ini_filename(self, filename: String) -> (b: StartBuilder)
        ensures
            b@ == (StartView { ini_filename: Some(filename@), ..self@ }),
    {
        proof {
            use_type_invariant(&self);
        }
        StartBuilder {
            window_title: self.window_title,
            window_width: self.window_width,
            window_height: self.window_height,
            gl_version: self.gl_version,
            imgui_ini_filename: Some(filename),
        }
    }

    /// The title of the window.
    pub fn title(&self) -> (t: &String)
        ensures
            t@ == self@.title,
    {
        &self.window_title
    }

    /// The size that the window is opened with: the chosen one, or the
    /// default.
    pub fn resolved_size(&self) -> (size: (u32, u32))
        ensures
            size == match self@.size {
                Some(s) => s,
                None => (DEFAULT_WINDOW_SIDE, DEFAULT_WINDOW_SIDE),
            },
    {
        proof {
            use_type_invariant(self);
        }
        match (self.window_width, self.window_height) {
            (Some(w), Some(h)) => (w, h),
            _ => (DEFAULT_WINDOW_SIDE, DEFAULT_WINDOW_SIDE),
        }
    }

    /// The version of the graphics context that is asked for: the chosen
    /// one, or the default.
    pub fn resolved_gl_version(&self) -> (version: (u8, u8))
        ensures
            version == match self@.gl_version {
                Some(v) => v,
                None => DEFAULT_GL_VERSION,
            },
    {
        match self.gl_version {
            Some(v) => v,
            None => DEFAULT_GL_VERSION,
        }
    }

    /// The layout file of the debug interface, if one was chosen.
    pub fn ini_filename(&self) -> (name: Option<&String>)
        ensures
            match name {
                Some(n) => self@.ini_filename == Some(n@),
                None => self@.ini_filename is None,
            },
    {
        match &self.imgui_ini_filename {
            Some(n) => Some(n),
            None => None,
        }
    }
}

} // verus!
