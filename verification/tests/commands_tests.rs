use asnap::commands::{
    capture_command, ocr_capture_command, ocr_commands, ocr_step, recognized_text, recorder_commands,
    CommandLine, OcrStep, Platform,
    MAC_OCR_HEAD, MAC_OCR_TAIL, WIN_OCR_HEAD, WIN_OCR_TAIL,
};
use asnap::recorder::{spawn_step, stop_step, ChildStatus, SpawnStep, StopStep};
use asnap::region::Region;

fn args(c: &CommandLine) -> Vec<&str> {
    c.args.iter().map(|s| s.as_str()).collect()
}

const R: Region = Region { x: 10, y: -20, w: 300, h: 400 };

#[test]
fn capture_commands() {
    let c = capture_command(Platform::MacOs, &R, "/tmp/a.png");
    assert_eq!(c.program, "screencapture");
    assert_eq!(args(&c), ["-R", "10,-20,300,400", "-t", "png", "-x", "/tmp/a.png"]);
    assert!(c.script.is_none());
    let c = capture_command(Platform::Linux, &R, "/tmp/a.png");
    assert_eq!(c.program, "grim");
    assert_eq!(args(&c), ["-g", "10,-20 300x400", "/tmp/a.png"]);
    let c = capture_command(Platform::Windows, &R, "C:\\it's.png");
    assert_eq!(c.program, "powershell");
    assert_eq!(args(&c), ["-NoProfile", "-NonInteractive", "-Command", "-"]);
    let expected = "\nAdd-Type -AssemblyName System.Drawing,System.Windows.Forms\n\
$bmp = New-Object System.Drawing.Bitmap(300,400)\n\
$g = [System.Drawing.Graphics]::FromImage($bmp)\n\
$g.CopyFromScreen(10,-20,0,0,[System.Drawing.Size]::new(300,400))\n\
$g.Dispose()\n\
$bmp.Save('C:\\it''s.png')\n\
$bmp.Dispose()\n";
    assert_eq!(c.script.as_deref(), Some(expected));
}

#[test]
fn recorder_command_lists() {
    let v = recorder_commands(Platform::MacOs, &R, "o.mp4");
    assert_eq!(v.len(), 1);
    assert_eq!(v[0].program, "screencapture");
    assert_eq!(args(&v[0]), ["-v", "-R", "10,-20,300,400", "o.mp4"]);
    let v = recorder_commands(Platform::Linux, &R, "o.mp4");
    assert_eq!(v.len(), 2);
    assert_eq!(v[0].program, "wl-screenrec");
    assert_eq!(args(&v[0]), ["--geometry", "10,-20 300x400", "--file", "o.mp4"]);
    assert_eq!(v[1].program, "wf-recorder");
    assert_eq!(args(&v[1]), ["-g", "10,-20 300x400", "-f", "o.mp4"]);
    let v = recorder_commands(Platform::Windows, &R, "o.mp4");
    assert_eq!(v[0].program, "ffmpeg");
    assert_eq!(
        args(&v[0]),
        [
            "-f", "gdigrab", "-i", "desktop", "-vf", "crop=300:400:10:-20", "-c:v", "libx264",
            "-preset", "ultrafast", "-pix_fmt", "yuv420p", "-y", "o.mp4"
        ]
    );
}

#[test]
fn ocr_command_lists() {
    let v = ocr_commands(Platform::Linux, "/tmp/x.png");
    assert_eq!(v.len(), 2);
    assert_eq!(v[0].program, "tesseract");
    assert_eq!(args(&v[0]), ["/tmp/x.png", "stdout", "-l", "eng"]);
    assert_eq!(v[1].program, "nix-shell");
    assert_eq!(args(&v[1]), ["-p", "tesseract", "--run", "tesseract '/tmp/x.png' stdout -l eng"]);
    let v = ocr_commands(Platform::MacOs, "/tmp/a\"b.png");
    assert_eq!(v[0].program, "swift");
    assert_eq!(args(&v[0]), ["-"]);
    let script = v[0].script.clone().unwrap();
    assert_eq!(script, format!("{}{}{}", MAC_OCR_HEAD, "/tmp/a\\\"b.png", MAC_OCR_TAIL));
    assert!(script.contains("URL(fileURLWithPath: \"/tmp/a\\\"b.png\")"));
    let v = ocr_commands(Platform::Windows, "C:\\t\\x.png");
    assert_eq!(v[0].program, "powershell");
    let script = v[0].script.clone().unwrap();
    assert_eq!(script, format!("{}{}{}", WIN_OCR_HEAD, "C:\\\\t\\\\x.png", WIN_OCR_TAIL));
    assert!(script.contains("$path = \"C:\\\\t\\\\x.png\""));
}

#[test]
fn recognized_text_decoding() {
    assert_eq!(recognized_text(Platform::Linux, b" hello\n"), " hello\n");
    assert_eq!(recognized_text(Platform::MacOs, b"a\xffb"), "a\u{fffd}b");
    assert_eq!(recognized_text(Platform::Windows, b"  hello world \r\n"), "hello world");
}

#[test]
fn stop_steps() {
    assert_eq!(stop_step(ChildStatus::Exited, 0), StopStep::Done);
    assert_eq!(stop_step(ChildStatus::Unknown, 0), StopStep::Done);
    assert_eq!(stop_step(ChildStatus::Running, 8_000_000_000), StopStep::Wait { ms: 100 });
    assert_eq!(stop_step(ChildStatus::Running, 8_000_000_001), StopStep::Kill);
}

#[test]
fn ocr_capture_uses_short_script() {
    let c = ocr_capture_command(Platform::Windows, &R, "C:\\it's.png");
    assert_eq!(c.program, "powershell");
    let expected = "\nAdd-Type -AssemblyName System.Drawing\n\
$bmp = New-Object System.Drawing.Bitmap(300,400)\n\
$g = [System.Drawing.Graphics]::FromImage($bmp)\n\
$g.CopyFromScreen(10,-20,0,0,[System.Drawing.Size]::new(300,400))\n\
$g.Dispose(); $bmp.Save('C:\\it''s.png'); $bmp.Dispose()\n";
    assert_eq!(c.script.as_deref(), Some(expected));
    let c = ocr_capture_command(Platform::Linux, &R, "/tmp/a.png");
    assert_eq!(c.program, "grim");
    assert_eq!(args(&c), ["-g", "10,-20 300x400", "/tmp/a.png"]);
}

#[test]
fn ocr_steps() {
    assert_eq!(ocr_step(Platform::Linux, 0, true, true, b"hi\n"), OcrStep::Text("hi\n".to_string()));
    assert_eq!(ocr_step(Platform::Linux, 0, true, false, b"hi"), OcrStep::TryNext);
    assert_eq!(ocr_step(Platform::Linux, 0, false, false, b""), OcrStep::TryNext);
    assert_eq!(ocr_step(Platform::Linux, 1, true, false, b"x"), OcrStep::Text("x".to_string()));
    assert_eq!(ocr_step(Platform::Linux, 1, false, false, b""), OcrStep::Nothing);
    assert_eq!(ocr_step(Platform::MacOs, 0, true, false, b"a\xff"), OcrStep::Text("a\u{fffd}".to_string()));
    assert_eq!(ocr_step(Platform::Windows, 0, true, true, b" t \r\n"), OcrStep::Text("t".to_string()));
    assert_eq!(ocr_step(Platform::Windows, 0, false, false, b""), OcrStep::Nothing);
}

#[test]
fn spawn_steps() {
    assert_eq!(spawn_step(0, 2, true), SpawnStep::Use);
    assert_eq!(spawn_step(0, 2, false), SpawnStep::TryNext);
    assert_eq!(spawn_step(1, 2, false), SpawnStep::GiveUp);
    assert_eq!(spawn_step(0, 1, false), SpawnStep::GiveUp);
}
