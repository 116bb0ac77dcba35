//! Screen capture: the captured-frame model and the per-platform capturers.
use vstd::prelude::*;

verus! {

/// A captured screen frame as raw RGBA pixels.
#[derive(Clone, Debug, PartialEq, Eq)]
pub struct CapturedFrame {
    pub width: u32,
    pub height: u32,
    /// RGBA pixel data (`width * height * 4` bytes).
    pub data: Vec<u8>,
    /// Capture time in milliseconds since the Unix epoch.
    pub timestamp_ms: u64,
}

/// Why a frame could not be captured.
#[derive(Clone, Copy, Debug, PartialEq, Eq, Structural)]
pub enum CaptureError {
    /// On Android the Flutter side owns screen capture.
    ManagedByFlutter,
    /// This platform has no native capture.
    NotImplemented,
}

/// The text of a capture error.
pub open spec fn capture_error_text(e: CaptureError) -> Seq<char> {
    match e {
        CaptureError::ManagedByFlutter => "Android capture is managed by Flutter platform code"@,
        CaptureError::NotImplemented => "Screen capture not implemented on this platform"@,
    }
}

impl CaptureError {
    /// The error's message.
    pub fn message(&self) -> (text: String)
        ensures
            text@ == capture_error_text(*self),
    {
        match self {
            CaptureError::ManagedByFlutter => "Android capture is managed by Flutter platform code".to_owned(),
            CaptureError::NotImplemented => "Screen capture not implemented on this platform".to_owned(),
        }
    }
}

/// A platform-specific screen capturer.
pub trait ScreenCapture {
    /// Captures one frame of the primary display.
    fn capture_frame(&mut self) -> Result<CapturedFrame, CaptureError>;

    /// The primary display's width and height.
    fn display_dimensions(&self) -> (u32, u32);
}

/// The time elapsed since `std::time::UNIX_EPOCH`, from
/// `SystemTime::elapsed`, or `None` where the clock reads before the epoch
/// (its error). Nothing is promised of the value: it is the machine's clock.
#[verifier::external_body]
fn elapsed_since_epoch() -> Option<std::time::Duration> {
    std::time::UNIX_EPOCH.elapsed().ok()
}

/// Whole milliseconds of a duration, from `Duration::as_millis`. The
/// duration is opaque here, so nothing is stated of the value.
#[verifier::external_body]
fn duration_millis(d: std::time::Duration) -> u128 {
    d.as_millis()
}

/// Milliseconds since the Unix epoch, truncated to 64 bits; zero when the
/// clock reads before the epoch.
fn unix_time_ms() -> u64 {
    match elapsed_since_epoch() {
        Some(d) => {
            let ms = duration_millis(d);
            #[verifier::truncate]
            (ms as u64)
        },
        None => 0,
    }
}

/// Capturer for Windows (DXGI desktop duplication); until that is wired in it
/// yields black 1920x1080 frames.
pub struct WindowsCapture {
    width: u32,
    height: u32,
}

impl WindowsCapture {
    #[verifier::type_invariant]
    spec fn frame_fits(&self) -> bool {
        self.width * self.height * 4 <= u32::MAX
    }

    /// The capturer's display width.
    pub closed spec fn spec_width(&self) -> u32 {
        self.width
    }

    /// The capturer's display height.
    pub closed spec fn spec_height(&self) -> u32 {
        self.height
    }

    /// Creates the capturer for a 1920x1080 display.
    pub fn new() -> (c: Result<WindowsCapture, CaptureError>)
        ensures
            c matches Ok(w) && w.spec_width() == 1920 && w.spec_height() == 1080,
    {
        Ok(WindowsCapture { width: 1920, height: 1080 })
    }
}

impl ScreenCapture for WindowsCapture {
    /// A black frame of the display's size, stamped with the current time.
    fn capture_frame(&mut self) -> (f: Result<CapturedFrame, CaptureError>)
        ensures
            *final(self) == *old(self),
            f matches Ok(fr) && {
                &&& fr.width == old(self).spec_width()
                &&& fr.height == old(self).spec_height()
                &&& fr.data@.len() == old(self).spec_width() * old(self).spec_height() * 4
                &&& forall|i: int| 0 <= i < fr.data@.len() ==> #[trigger] fr.data@[i] == 0
            },
    {
        proof {
            use_type_invariant(&*self);
        }
        let n: usize = (self.width * self.height * 4) as usize;
        let mut data: Vec<u8> = Vec::with_capacity(n);
        let mut i: usize = 0;
        while i < n
            invariant
                i <= n,
                data@.len() == i,
                forall|k: int| 0 <= k < i ==> #[trigger] data@[k] == 0,
            decreases n - i,
        {
            data.push(0u8);
            i = i + 1;
        }
        Ok(CapturedFrame {
            width: self.width,
            height: self.height,
            data,
            timestamp_ms: unix_time_ms(),
        })
    }

    fn display_dimensions(&self) -> (d: (u32, u32))
        ensures
            d == (self.spec_width(), self.spec_height()),
    {
        (self.width, self.height)
    }
}

/// Capturer for Android: the Flutter side owns capture (MediaProjection),
/// so native capture always fails.
pub struct AndroidCapture;

impl AndroidCapture {
    /// Creates the capturer.
    pub fn new() -> (c: Result<AndroidCapture, CaptureError>)
        ensures
            c is Ok,
    {
        Ok(AndroidCapture)
    }
}

impl ScreenCapture for AndroidCapture {
    fn capture_frame(&mut self) -> (f: Result<CapturedFrame, CaptureError>)
        ensures
            *final(self) == *old(self),
            f == Err::<CapturedFrame, CaptureError>(CaptureError::ManagedByFlutter),
    {
        Err(CaptureError::ManagedByFlutter)
    }

    fn display_dimensions(&self) -> (d: (u32, u32))
        ensures
            d == (0u32, 0u32),
    {
        (0, 0)
    }
}

/// Capturer for platforms without native capture (Linux and others).
pub struct FallbackCapture;

impl FallbackCapture {
    /// Creates the capturer.
    pub fn new() -> (c: Result<FallbackCapture, CaptureError>)
        ensures
            c is Ok,
    {
        Ok(FallbackCapture)
    }
}

impl ScreenCapture for FallbackCapture {
    fn capture_frame(&mut self) -> (f: Result<CapturedFrame, CaptureError>)
        ensures
            *final(self) == *old(self),
            f == Err::<CapturedFrame, CaptureError>(CaptureError::NotImplemented),
    {
        Err(CaptureError::NotImplemented)
    }

    fn display_dimensions(&self) -> (d: (u32, u32))
        ensures
            d == (1920u32, 1080u32),
    {
        (1920, 1080)
    }
}

/// The platform a capturer is made for.
#[derive(Clone, Copy, Debug, PartialEq, Eq, Structural)]
pub enum CapturePlatform {
    Windows,
    Android,
    /// Any platform without its own capturer.
    Other,
}

/// The capturer of one platform.
pub enum PlatformCapture {
    Windows(WindowsCapture),
    Android(AndroidCapture),
    Fallback(FallbackCapture),
}

impl ScreenCapture for PlatformCapture {
    fn capture_frame(&mut self) -> (f: Result<CapturedFrame, CaptureError>)
        ensures
            *final(self) == *old(self),
            *old(self) is Android ==> f == Err::<CapturedFrame, CaptureError>(CaptureError::ManagedByFlutter),
            *old(self) is Fallback ==> f == Err::<CapturedFrame, CaptureError>(CaptureError::NotImplemented),
            *old(self) matches PlatformCapture::Windows(w) ==> (f matches Ok(fr) && {
                &&& fr.width == w.spec_width()
                &&& fr.height == w.spec_height()
                &&& fr.data@.len() == w.spec_width() * w.spec_height() * 4
                &&& forall|i: int| 0 <= i < fr.data@.len() ==> #[trigger] fr.data@[i] == 0
            }),
    {
        match self {
            PlatformCapture::Windows(c) => c.capture_frame(),
            PlatformCapture::Android(c) => c.capture_frame(),
            PlatformCapture::Fallback(c) => c.capture_frame(),
        }
    }

    fn display_dimensions(&self) -> (d: (u32, u32))
        ensures
            self matches PlatformCapture::Windows(w) ==> d == (w.spec_width(), w.spec_height()),
            self is Android ==> d == (0u32, 0u32),
            self is Fallback ==> d == (1920u32, 1080u32),
    {
        match self {
            PlatformCapture::Windows(c) => c.display_dimensions(),
            PlatformCapture::Android(c) => c.display_dimensions(),
            PlatformCapture::Fallback(c) => c.display_dimensions(),
        }
    }
}

/// Creates the screen capturer of the given platform.
pub fn create_capture(platform: CapturePlatform) -> (c: Result<PlatformCapture, CaptureError>)
    ensures
        platform == CapturePlatform::Windows ==> (c matches Ok(PlatformCapture::Windows(w))
            && w.spec_width() == 1920 && w.spec_height() == 1080),
        platform == CapturePlatform::Android ==> (c matches Ok(PlatformCapture::Android(_))),
        platform == CapturePlatform::Other ==> (c matches Ok(PlatformCapture::Fallback(_))),
{
    match platform {
        CapturePlatform::Windows => match WindowsCapture::new() {
            Ok(w) => Ok(PlatformCapture::Windows(w)),
            Err(e) => Err(e),
        },
        CapturePlatform::Android => match AndroidCapture::new() {
            Ok(a) => Ok(PlatformCapture::Android(a)),
            Err(e) => Err(e),
        },
        CapturePlatform::Other => match FallbackCapture::new() {
            Ok(f) => Ok(PlatformCapture::Fallback(f)),
            Err(e) => Err(e),
        },
    }
}

} // verus!
