//! Command lines for the platform tools that capture, record and recognise
//! text, built from a region and file paths.
use vstd::prelude::*;
use crate::region::{crop_filter, crop_text, csv_text, region_csv, slurp_geometry, slurp_text, Region};
use crate::text::{
    chars_of, int_text, lossy_text, push_int, push_replaced, push_str, replace_char, sub_chars, trim, trim_bounds,
    utf8_lossy,
};

verus! {

/// The platform whose tools are used.
#[derive(Debug, Clone, Copy, PartialEq, Eq, Structural)]
pub enum Platform {
    MacOs,
    Linux,
    Windows,
}

/// A program to run, its arguments, and the script to write to its
/// standard input, if any.
pub struct CommandLine {
    pub program: String,
    pub args: Vec<String>,
    pub script: Option<String>,
}

/// The texts of a list of strings.
pub open spec fn texts(v: Seq<String>) -> Seq<Seq<char>> {
    v.map_values(|s: String| s@)
}

/// The texts of an optional string.
pub open spec fn opt_text(s: Option<String>) -> Option<Seq<char>> {
    match s {
        Some(s) => Some(s@),
        None => None,
    }
}

impl CommandLine {
    /// The command as plain text: program, arguments, script.
    pub open spec fn text(&self) -> (Seq<char>, Seq<Seq<char>>, Option<Seq<char>>) {
        (self.program@, texts(self.args@), opt_text(self.script))
    }
}

fn owned(s: &str) -> (r: String)
    ensures
        r@ == s@,
{
    s.to_owned()
}

fn command(program: &str, args: Vec<String>, script: Option<String>) -> (r: CommandLine)
    ensures
        r.program@ == program@,
        r.args == args,
        r.script == script,
{
    CommandLine { program: owned(program), args, script }
}

/// Arguments that make PowerShell run the script read from standard input.
pub open spec fn powershell_args() -> Seq<Seq<char>> {
    seq!["-NoProfile"@, "-NonInteractive"@, "-Command"@, "-"@]
}

fn powershell_stdin_args() -> (r: Vec<String>)
    ensures
        texts(r@) == powershell_args(),
{
    let mut v: Vec<String> = Vec::new();
    v.push(owned("-NoProfile"));
    v.push(owned("-NonInteractive"));
    v.push(owned("-Command"));
    v.push(owned("-"));
    assert(texts(v@) =~= powershell_args());
    v
}

/// Which of the two PowerShell screen-copy scripts is used: the screenshot
/// one, or the shorter one that text recognition uses.
#[derive(Debug, Clone, Copy, PartialEq, Eq, Structural)]
pub enum CaptureScript {
    Screenshot,
    Ocr,
}

/// The PowerShell screen-copy script's text up to the bitmap size.
pub open spec fn win_capture_head(kind: CaptureScript) -> Seq<char> {
    match kind {
        CaptureScript::Screenshot => "\nAdd-Type -AssemblyName System.Drawing,System.Windows.Forms\n$bmp = New-Object System.Drawing.Bitmap("@,
        CaptureScript::Ocr => "\nAdd-Type -AssemblyName System.Drawing\n$bmp = New-Object System.Drawing.Bitmap("@,
    }
}

/// The script's text between the copy and the file path.
pub open spec fn win_capture_save(kind: CaptureScript) -> Seq<char> {
    match kind {
        CaptureScript::Screenshot => "))\n$g.Dispose()\n$bmp.Save('"@,
        CaptureScript::Ocr => "))\n$g.Dispose(); $bmp.Save('"@,
    }
}

/// The script's text after the file path.
pub open spec fn win_capture_tail(kind: CaptureScript) -> Seq<char> {
    match kind {
        CaptureScript::Screenshot => "')\n$bmp.Dispose()\n"@,
        CaptureScript::Ocr => "'); $bmp.Dispose()\n"@,
    }
}

/// The PowerShell screen-copy script for `r`, saving to `path` (single
/// quotes in the path doubled, as a single-quoted PowerShell string needs).
pub open spec fn win_capture_script(kind: CaptureScript, r: Region, path: Seq<char>) -> Seq<char> {
    win_capture_head(kind) + int_text(r.w as int) + ","@ + int_text(r.h as int)
        + ")\n$g = [System.Drawing.Graphics]::FromImage($bmp)\n$g.CopyFromScreen("@ + int_text(r.x as int) + ","@
        + int_text(r.y as int) + ",0,0,[System.Drawing.Size]::new("@ + int_text(r.w as int) + ","@ + int_text(
        r.h as int,
    ) + win_capture_save(kind) + replace_char(path, '\'', "''"@) + win_capture_tail(kind)
}

fn win_capture(kind: CaptureScript, r: &Region, path: &str) -> (s: String)
    ensures
        s@ == win_capture_script(kind, *r, path@),
{
    let mut s = String::new();
    match kind {
        CaptureScript::Screenshot => push_str(
            &mut s,
            "\nAdd-Type -AssemblyName System.Drawing,System.Windows.Forms\n$bmp = New-Object System.Drawing.Bitmap(",
        ),
        CaptureScript::Ocr => push_str(
            &mut s,
            "\nAdd-Type -AssemblyName System.Drawing\n$bmp = New-Object System.Drawing.Bitmap(",
        ),
    }
    push_int(&mut s, r.w);
    push_str(&mut s, ",");
    push_int(&mut s, r.h);
    push_str(&mut s, ")\n$g = [System.Drawing.Graphics]::FromImage($bmp)\n$g.CopyFromScreen(");
    push_int(&mut s, r.x);
    push_str(&mut s, ",");
    push_int(&mut s, r.y);
    push_str(&mut s, ",0,0,[System.Drawing.Size]::new(");
    push_int(&mut s, r.w);
    push_str(&mut s, ",");
    push_int(&mut s, r.h);
    match kind {
        CaptureScript::Screenshot => push_str(&mut s, "))\n$g.Dispose()\n$bmp.Save('"),
        CaptureScript::Ocr => push_str(&mut s, "))\n$g.Dispose(); $bmp.Save('"),
    }
    push_replaced(&mut s, path, '\'', "''");
    match kind {
        CaptureScript::Screenshot => push_str(&mut s, "')\n$bmp.Dispose()\n"),
        CaptureScript::Ocr => push_str(&mut s, "'); $bmp.Dispose()\n"),
    }
    assert(s@ =~= win_capture_script(kind, *r, path@));
    s
}

/// The command that saves the pixels of `r` as a PNG file at `path`.
pub open spec fn capture_text(kind: CaptureScript, platform: Platform, r: Region, path: Seq<char>) -> (Seq<char>, Seq<Seq<char>>, Option<Seq<char>>) {
    match platform {
        Platform::MacOs => ("screencapture"@, seq!["-R"@, csv_text(r), "-t"@, "png"@, "-x"@, path], None),
        Platform::Linux => ("grim"@, seq!["-g"@, slurp_text(r), path], None),
        Platform::Windows => ("powershell"@, powershell_args(), Some(win_capture_script(kind, r, path))),
    }
}

fn capture_with(kind: CaptureScript, platform: Platform, r: &Region, path: &str) -> (c: CommandLine)
    ensures
        c.text() == capture_text(kind, platform, *r, path@),
{
    match platform {
        Platform::MacOs => {
            let mut args: Vec<String> = Vec::new();
            args.push(owned("-R"));
            args.push(region_csv(r));
            args.push(owned("-t"));
            args.push(owned("png"));
            args.push(owned("-x"));
            args.push(owned(path));
            let c = command("screencapture", args, None);
            assert(c.text() =~~= capture_text(kind, platform, *r, path@));
            c
        },
        Platform::Linux => {
            let mut args: Vec<String> = Vec::new();
            args.push(owned("-g"));
            args.push(slurp_geometry(r));
            args.push(owned(path));
            let c = command("grim", args, None);
            assert(c.text() =~~= capture_text(kind, platform, *r, path@));
            c
        },
        Platform::Windows => {
            let c = command("powershell", powershell_stdin_args(), Some(win_capture(kind, r, path)));
            assert(c.text() =~~= capture_text(kind, platform, *r, path@));
            c
        },
    }
}

/// The command that captures region `r` to the PNG file `path` for a
/// screenshot: `screencapture` on macOS, `grim` on Linux, a PowerShell
/// script on Windows.
pub fn capture_command(platform: Platform, r: &Region, path: &str) -> (c: CommandLine)
    ensures
        c.text() == capture_text(CaptureScript::Screenshot, platform, *r, path@),
{
    capture_with(CaptureScript::Screenshot, platform, r, path)
}

/// The command that captures region `r` to the PNG file `path` for text
/// recognition: as for a screenshot, with the shorter PowerShell script on
/// Windows.
pub fn ocr_capture_command(platform: Platform, r: &Region, path: &str) -> (c: CommandLine)
    ensures
        c.text() == capture_text(CaptureScript::Ocr, platform, *r, path@),
{
    capture_with(CaptureScript::Ocr, platform, r, path)
}

/// The recorder commands for `r` writing to `out`, in the order to try
/// them.
pub open spec fn recorder_text(platform: Platform, r: Region, out: Seq<char>) -> Seq<(Seq<char>, Seq<Seq<char>>, Option<Seq<char>>)> {
    match platform {
        Platform::MacOs => seq![("screencapture"@, seq!["-v"@, "-R"@, csv_text(r), out], None)],
        Platform::Linux => seq![
            ("wl-screenrec"@, seq!["--geometry"@, slurp_text(r), "--file"@, out], None),
            ("wf-recorder"@, seq!["-g"@, slurp_text(r), "-f"@, out], None),
        ],
        Platform::Windows => seq![
            (
                "ffmpeg"@,
                seq![
                    "-f"@,
                    "gdigrab"@,
                    "-i"@,
                    "desktop"@,
                    "-vf"@,
                    crop_text(r),
                    "-c:v"@,
                    "libx264"@,
                    "-preset"@,
                    "ultrafast"@,
                    "-pix_fmt"@,
                    "yuv420p"@,
                    "-y"@,
                    out,
                ],
                None,
            ),
        ],
    }
}

/// The commands that record region `r` to the MP4 file `out`, in the order
/// to try them: `screencapture -v` on macOS; `wl-screenrec`, then
/// `wf-recorder` on Linux; `ffmpeg` with `gdigrab` on Windows (stopped by
/// writing `q` to its standard input).
pub fn recorder_commands(platform: Platform, r: &Region, out: &str) -> (v: Vec<CommandLine>)
    ensures
        v@.map_values(|c: CommandLine| c.text()) == recorder_text(platform, *r, out@),
{
    let mut v: Vec<CommandLine> = Vec::new();
    match platform {
        Platform::MacOs => {
            let mut args: Vec<String> = Vec::new();
            args.push(owned("-v"));
            args.push(owned("-R"));
            args.push(region_csv(r));
            args.push(owned(out));
            v.push(command("screencapture", args, None));
        },
        Platform::Linux => {
            let mut args: Vec<String> = Vec::new();
            args.push(owned("--geometry"));
            args.push(slurp_geometry(r));
            args.push(owned("--file"));
            args.push(owned(out));
            v.push(command("wl-screenrec", args, None));
            let mut args: Vec<String> = Vec::new();
            args.push(owned("-g"));
            args.push(slurp_geometry(r));
            args.push(owned("-f"));
            args.push(owned(out));
            v.push(command("wf-recorder", args, None));
        },
        Platform::Windows => {
            let mut args: Vec<String> = Vec::new();
            args.push(owned("-f"));
            args.push(owned("gdigrab"));
            args.push(owned("-i"));
            args.push(owned("desktop"));
            args.push(owned("-vf"));
            args.push(crop_filter(r));
            args.push(owned("-c:v"));
            args.push(owned("libx264"));
            args.push(owned("-preset"));
            args.push(owned("ultrafast"));
            args.push(owned("-pix_fmt"));
            args.push(owned("yuv420p"));
            args.push(owned("-y"));
            args.push(owned(out));
            v.push(command("ffmpeg", args, None));
        },
    }
    assert(v@.map_values(|c: CommandLine| c.text()) =~~= recorder_text(platform, *r, out@));
    v
}

/// Start of the Swift script that runs Vision text recognition on an image.
pub const MAC_OCR_HEAD: &'static str = r#"
import Vision
import AppKit

let url = URL(fileURLWithPath: ""#;

/// End of the Swift text recognition script.
pub const MAC_OCR_TAIL: &'static str = r#"")
guard let img = NSImage(contentsOf: url),
      let cg = img.cgImage(forProposedRect: nil, context: nil, hints: nil) else {
    exit(1)
}

let request = VNRecognizeTextRequest()
request.recognitionLevel = .accurate
request.usesLanguageCorrection = true

let handler = VNImageRequestHandler(cgImage: cg, options: [:])
try? handler.perform([request])

guard let results = request.results else { exit(1) }
for obs in results {
    if let candidate = obs.topCandidates(1).first {
        print(candidate.string)
    }
}
"#;

/// Start of the PowerShell script that runs Windows.Media.Ocr on an image.
pub const WIN_OCR_HEAD: &'static str = r#"
[Windows.Storage.StorageFile,Windows.Storage,ContentType=WindowsRuntime] | Out-Null
[Windows.Media.Ocr.OcrEngine,Windows.Foundation.UniversalApiContract,ContentType=WindowsRuntime] | Out-Null
[Windows.Graphics.Imaging.BitmapDecoder,Windows.Graphics,ContentType=WindowsRuntime] | Out-Null

function Await($task, $type) {
    $asTask = [System.WindowsRuntimeSystemExtensions].GetMethods() | Where-Object {
        $_.Name -eq 'AsTask' -and $_.GetParameters().Count -eq 1
    } | Select-Object -First 1
    $genMethod = $asTask.MakeGenericMethod($type)
    $netTask = $genMethod.Invoke($null, @($task))
    $netTask.Wait(-1) | Out-Null
    return $netTask.Result
}

$path = ""#;

/// End of the PowerShell text recognition script.
pub const WIN_OCR_TAIL: &'static str = r#""
$file = Await ([Windows.Storage.StorageFile]::GetFileFromPathAsync($path)) ([Windows.Storage.StorageFile])
$stream = Await ($file.OpenAsync([Windows.Storage.FileAccessMode]::Read)) ([Windows.Storage.Streams.IRandomAccessStream])
$decoder = Await ([Windows.Graphics.Imaging.BitmapDecoder]::CreateAsync($stream)) ([Windows.Graphics.Imaging.BitmapDecoder])
$bitmap = Await ($decoder.GetSoftwareBitmapAsync()) ([Windows.Graphics.Imaging.SoftwareBitmap])

$engine = [Windows.Media.Ocr.OcrEngine]::TryCreateFromUserProfileLanguages()
$result = Await ($engine.RecognizeAsync($bitmap)) ([Windows.Media.Ocr.OcrResult])

Write-Output $result.Text
"#;

/// The text recognition commands for the image at `path`, in the order to
/// try them.
pub open spec fn ocr_text(platform: Platform, path: Seq<char>) -> Seq<(Seq<char>, Seq<Seq<char>>, Option<Seq<char>>)> {
    match platform {
        Platform::MacOs => seq![
            ("swift"@, seq!["-"@], Some(MAC_OCR_HEAD@ + replace_char(path, '"', "\\\""@) + MAC_OCR_TAIL@)),
        ],
        Platform::Linux => seq![
            ("tesseract"@, seq![path, "stdout"@, "-l"@, "eng"@], None),
            ("nix-shell"@, seq!["-p"@, "tesseract"@, "--run"@, "tesseract '"@ + path + "' stdout -l eng"@], None),
        ],
        Platform::Windows => seq![
            ("powershell"@, powershell_args(), Some(WIN_OCR_HEAD@ + replace_char(path, '\\', "\\\\"@) + WIN_OCR_TAIL@)),
        ],
    }
}

/// The commands that recognise the text in the image at `path`, in the
/// order to try them: a Vision script for `swift` on macOS; `tesseract`,
/// then `tesseract` through `nix-shell` on Linux; a Windows.Media.Ocr
/// script for PowerShell on Windows.
pub fn ocr_commands(platform: Platform, path: &str) -> (v: Vec<CommandLine>)
    ensures
        v@.map_values(|c: CommandLine| c.text()) == ocr_text(platform, path@),
{
    let mut v: Vec<CommandLine> = Vec::new();
    match platform {
        Platform::MacOs => {
            let mut script = String::new();
            push_str(&mut script, MAC_OCR_HEAD);
            push_replaced(&mut script, path, '"', "\\\"");
            push_str(&mut script, MAC_OCR_TAIL);
            let mut args: Vec<String> = Vec::new();
            args.push(owned("-"));
            v.push(command("swift", args, Some(script)));
        },
        Platform::Linux => {
            let mut args: Vec<String> = Vec::new();
            args.push(owned(path));
            args.push(owned("stdout"));
            args.push(owned("-l"));
            args.push(owned("eng"));
            v.push(command("tesseract", args, None));
            let mut run = String::new();
            push_str(&mut run, "tesseract '");
            push_str(&mut run, path);
            push_str(&mut run, "' stdout -l eng");
            let mut args: Vec<String> = Vec::new();
            args.push(owned("-p"));
            args.push(owned("tesseract"));
            args.push(owned("--run"));
            args.push(run);
            v.push(command("nix-shell", args, None));
        },
        Platform::Windows => {
            let mut script = String::new();
            push_str(&mut script, WIN_OCR_HEAD);
            push_replaced(&mut script, path, '\\', "\\\\");
            push_str(&mut script, WIN_OCR_TAIL);
            v.push(command("powershell", powershell_stdin_args(), Some(script)));
        },
    }
    assert(v@.map_values(|c: CommandLine| c.text()) =~~= ocr_text(platform, path@));
    v
}


/// The recognised text in what the recognition command printed: decoded
/// as UTF-8 (invalid sequences replaced), and trimmed on Windows.
pub open spec fn recognized(platform: Platform, stdout: Seq<u8>) -> Seq<char> {
    if platform == Platform::Windows {
        trim(utf8_lossy(stdout))
    } else {
        utf8_lossy(stdout)
    }
}

/// Reads the recognised text out of a recognition command's output.
pub fn recognized_text(platform: Platform, stdout: &[u8]) -> (r: String)
    ensures
        r@ == recognized(platform, stdout@),
        // The whole decoded output, trimmed on Windows only.
        platform != Platform::Windows ==> r@ == utf8_lossy(stdout@),
        platform == Platform::Windows ==> r@ == trim(utf8_lossy(stdout@)),
{
    let text = lossy_text(stdout);
    if platform == Platform::Windows {
        let all = chars_of(text.as_str());
        let (a, b) = trim_bounds(&all, 0, all.len());
        assert(all@.subrange(0, all@.len() as int) =~= all@);
        let kept = sub_chars(&all, a, b);
        let mut out = String::new();
        let mut i: usize = 0;
        while i < kept.len()
            invariant
                i <= kept.len(),
                out@ == kept@.take(i as int),
            decreases kept.len() - i,
        {
            crate::text::push_char(&mut out, kept[i]);
            i = i + 1;
            assert(out@ =~= kept@.take(i as int));
        }
        assert(kept@.take(kept.len() as int) =~= kept@);
        out
    } else {
        text
    }
}


/// What to do with one run of the recognition command number `attempt`.
#[derive(Debug, PartialEq, Eq)]
pub enum OcrStep {
    /// Use this text.
    Text(String),
    /// Run the next command.
    TryNext,
    /// There is no text.
    Nothing,
}

/// Decides what a run of recognition command `attempt` (from
/// `ocr_commands`) gives, from whether it ran to the end, whether it exited
/// successfully, and what it printed. On Linux a failed or unsuccessful
/// `tesseract` falls back to the `nix-shell` one, whose output is used
/// whatever its exit status; elsewhere the single command's output is used
/// whenever it ran.
pub fn ocr_step(platform: Platform, attempt: usize, ran: bool, exited_ok: bool, stdout: &[u8]) -> (r: OcrStep)
    ensures
        r is TryNext <==> platform == Platform::Linux && attempt == 0 && !(ran && exited_ok),
        r is Nothing <==> !ran && !(platform == Platform::Linux && attempt == 0),
        r matches OcrStep::Text(t) ==> t@ == recognized(platform, stdout@),
        r matches OcrStep::Text(t) ==> (platform != Platform::Windows ==> t@ == utf8_lossy(stdout@)),
        r matches OcrStep::Text(t) ==> (platform == Platform::Windows ==> t@ == trim(utf8_lossy(stdout@))),
{
    if platform == Platform::Linux && attempt == 0 && !(ran && exited_ok) {
        OcrStep::TryNext
    } else if !ran {
        OcrStep::Nothing
    } else {
        OcrStep::Text(recognized_text(platform, stdout))
    }
}


/// The recognised text is the whole decoded output, all lines of it:
/// untouched off Windows, only trimmed at both ends on Windows.
pub proof fn lemma_recognized_whole_output(platform: Platform, stdout: Seq<u8>)
    ensures
        platform != Platform::Windows ==> recognized(platform, stdout) == utf8_lossy(stdout),
        platform == Platform::Windows ==> recognized(platform, stdout) == trim(utf8_lossy(stdout)),
{
}

} // verus!
