//! The fixed HTML of the web share pages.

use vstd::prelude::*;

verus! {

/// The page served at `/`: what the tool is, and a link to the installer
/// for the visitor's system.
pub const LANDING_PAGE: &'static str = r#"<!DOCTYPE html>
<html>
<head>
    <meta charset="utf-8">
    <meta name="viewport" content="width=device-width, initial-scale=1">
    <title>MeshDrop - Peer-to-Peer Local File Sharing</title>
    <style>
        body {
            font-family: 'Segoe UI', system-ui, sans-serif;
            background: linear-gradient(135deg, #f7f9f5 0%, #edf4f0 52%, #eef1f7 100%);
            margin: 0;
            min-height: 100vh;
            display: grid;
            place-items: center;
            color: #17201b;
        }
        .card {
            background: rgba(255, 255, 255, 0.9);
            padding: 36px;
            border-radius: 16px;
            box-shadow: 0 20px 50px rgba(42, 55, 48, 0.12);
            border: 1px solid rgba(23, 32, 27, 0.08);
            max-width: 500px;
            width: 100%;
            text-align: center;
            backdrop-filter: blur(12px);
            box-sizing: border-box;
        }
        .eyebrow {
            color: #1f7a59;
            font-size: 0.8rem;
            font-weight: 800;
            text-transform: uppercase;
            letter-spacing: 0.05em;
            margin-bottom: 8px;
        }
        h1 {
            font-size: 2.5rem;
            margin: 0 0 12px;
            line-height: 1.1;
        }
        .tagline {
            color: #536158;
            font-size: 1rem;
            margin-bottom: 28px;
            line-height: 1.4;
        }
        .features {
            display: grid;
            gap: 16px;
            text-align: left;
            margin-bottom: 32px;
        }
        .feature-item {
            display: flex;
            align-items: flex-start;
            gap: 12px;
        }
        .feature-icon {
            font-size: 1.25rem;
            flex-shrink: 0;
        }
        .feature-text strong {
            display: block;
            font-size: 0.95rem;
            color: #17201b;
        }
        .feature-text span {
            font-size: 0.85rem;
            color: #607068;
        }
        .btn {
            display: inline-block;
            width: 100%;
            background: #17201b;
            color: #ffffff;
            text-decoration: none;
            padding: 14px 20px;
            border-radius: 10px;
            font-weight: 900;
            box-shadow: 0 8px 20px rgba(23, 32, 27, 0.2);
            transition: all 0.2s ease;
            box-sizing: border-box;
            cursor: pointer;
            border: none;
            font-size: 1rem;
        }
        .btn:hover {
            transform: translateY(-2px);
            box-shadow: 0 12px 28px rgba(23, 32, 27, 0.3);
            background: #1f7a59;
        }
        .get-app-section {
            background: #fbfbfc;
            border: 1px solid rgba(53, 91, 169, 0.15);
            border-radius: 12px;
            padding: 18px;
            text-align: left;
            box-sizing: border-box;
            width: 100%;
        }
        .get-app-section h3 {
            margin: 0 0 6px;
            font-size: 1.1rem;
            color: #17201b;
        }
        .get-app-section p {
            margin: 0 0 14px;
            font-size: 0.88rem;
            color: #607068;
            font-weight: 600;
        }
        .secondary-btn {
            background: #355ba9 !important;
        }
        .secondary-btn:hover {
            background: #254482 !important;
        }
    </style>
</head>
<body>
    <div class="card">
        <div class="eyebrow">Local Peer-to-Peer Sharing</div>
        <h1>MeshDrop</h1>
        <p class="tagline">Share files directly between your devices at maximum WiFi speeds. Zero cloud storage required, fully private.</p>
        
        <div class="features">
            <div class="feature-item">
                <span class="feature-icon">⚡</span>
                <div class="feature-text">
                    <strong>Maximum Speeds</strong>
                    <span>Transfers files directly over WiFi Direct or local LAN interfaces.</span>
                </div>
            </div>
            <div class="feature-item">
                <span class="feature-icon">🔒</span>
                <div class="feature-text">
                    <strong>100% Private & Offline</strong>
                    <span>No cloud servers. Transfers happen directly between devices locally.</span>
                </div>
            </div>
            <div class="feature-item">
                <span class="feature-icon">🌐</span>
                <div class="feature-text">
                    <strong>Multi-OS Ecosystem</strong>
                    <span>Native apps for desktop with cross-device browser support.</span>
                </div>
            </div>
        </div>

        <div class="get-app-section">
            <div class="eyebrow" style="color: #355ba9; margin-bottom: 4px;">MeshDrop App</div>
            <h3>Install Native Client</h3>
            <p id="osDetect">Detecting your system...</p>
            <a id="appDownloadBtn" href="/download-app" class="btn secondary-btn" style="display: none;">Download Installer</a>
        </div>
    </div>

    <script>
        window.onload = function() {
            const ua = navigator.userAgent;
            let os = "Unknown OS";
            let osParam = "unknown";
            let ext = "bin";

            if (ua.indexOf("Windows") !== -1) {
                os = "Windows";
                osParam = "windows";
                ext = "msi";
            } else if (ua.indexOf("Android") !== -1) {
                os = "Android";
                osParam = "android";
                ext = "apk";
            } else if (ua.indexOf("Mac") !== -1 || ua.indexOf("iPhone") !== -1 || ua.indexOf("iPad") !== -1) {
                os = "macOS / iOS";
                osParam = "macos";
                ext = "dmg";
            } else if (ua.indexOf("Linux") !== -1) {
                os = "Linux";
                osParam = "linux";
                ext = "deb";
            }

            const osDetect = document.getElementById("osDetect");
            const appDownloadBtn = document.getElementById("appDownloadBtn");

            osDetect.textContent = "Detected System: " + os;
            appDownloadBtn.href = "/download-app?os=" + osParam;
            appDownloadBtn.textContent = "Download MeshDrop for " + os + " (." + ext + ")";
            appDownloadBtn.style.display = "inline-block";
        };
    </script>
</body>
</html>"#;

/// The share page up to the file name.
pub const SHARE_PAGE_HEAD: &'static str = r#"<!DOCTYPE html>
<html>
<head>
    <meta charset="utf-8">
    <meta name="viewport" content="width=device-width, initial-scale=1">
    <title>MeshDrop - Web Share</title>
    <style>
        body {
            font-family: 'Segoe UI', system-ui, sans-serif;
            background: linear-gradient(135deg, #f7f9f5 0%, #edf4f0 52%, #eef1f7 100%);
            margin: 0;
            min-height: 100vh;
            display: grid;
            place-items: center;
            color: #17201b;
        }
        .card {
            background: rgba(255, 255, 255, 0.9);
            padding: 32px;
            border-radius: 16px;
            box-shadow: 0 20px 50px rgba(42, 55, 48, 0.12);
            border: 1px solid rgba(23, 32, 27, 0.08);
            max-width: 440px;
            width: 100%;
            text-align: center;
            backdrop-filter: blur(12px);
            box-sizing: border-box;
        }
        .eyebrow {
            color: #1f7a59;
            font-size: 0.8rem;
            font-weight: 800;
            text-transform: uppercase;
            letter-spacing: 0.05em;
            margin-bottom: 8px;
        }
        h1 {
            font-size: 2.2rem;
            margin: 0 0 16px;
            line-height: 1.1;
        }
        .file-info {
            background: #f1f6f2;
            border: 1px solid rgba(31, 122, 89, 0.15);
            border-radius: 12px;
            padding: 18px;
            margin: 24px 0;
            text-align: left;
        }
        .file-name {
            font-weight: 700;
            font-size: 1.1rem;
            word-break: break-all;
            margin-bottom: 4px;
            color: #17201b;
        }
        .file-size {
            color: #607068;
            font-size: 0.9rem;
            font-weight: 600;
        }
        .btn {
            display: inline-block;
            width: 100%;
            background: #17201b;
            color: #ffffff;
            text-decoration: none;
            padding: 14px 20px;
            border-radius: 10px;
            font-weight: 900;
            box-shadow: 0 8px 20px rgba(23, 32, 27, 0.2);
            transition: all 0.2s ease;
            box-sizing: border-box;
            cursor: pointer;
            border: none;
            font-size: 1rem;
        }
        .btn:hover {
            transform: translateY(-2px);
            box-shadow: 0 12px 28px rgba(23, 32, 27, 0.3);
            background: #1f7a59;
        }
        .progress-box {
            display: none;
            margin-top: 10px;
            text-align: left;
        }
        .progress-track {
            height: 12px;
            background: #e2e8e3;
            border-radius: 6px;
            overflow: hidden;
            position: relative;
            margin-bottom: 8px;
        }
        .progress-bar {
            height: 100%;
            background: linear-gradient(90deg, #1f7a59, #355ba9);
            width: 0%;
            transition: width 0.1s linear;
        }
        .progress-stats {
            display: flex;
            justify-content: space-between;
            font-size: 0.85rem;
            color: #607068;
            font-weight: bold;
        }
        .divider {
            height: 1px;
            background: rgba(23, 32, 27, 0.08);
            margin: 28px 0;
        }
        .get-app-section {
            background: #fbfbfc;
            border: 1px solid rgba(53, 91, 169, 0.15);
            border-radius: 12px;
            padding: 18px;
            text-align: left;
            box-sizing: border-box;
        }
        .get-app-section h3 {
            margin: 0 0 6px;
            font-size: 1.1rem;
            color: #17201b;
        }
        .get-app-section p {
            margin: 0 0 14px;
            font-size: 0.88rem;
            color: #607068;
            font-weight: 600;
        }
        .secondary-btn {
            background: #355ba9 !important;
        }
        .secondary-btn:hover {
            background: #254482 !important;
        }
    </style>
</head>
<body>
    <div class="card">
        <div class="eyebrow">MeshDrop Transfer</div>
        <h1>Incoming File</h1>
        <div class="file-info">
            <div class="file-name">"#;

/// The share page between the file name and the size.
pub const SHARE_PAGE_AFTER_NAME: &'static str = r#"</div>
            <div class="file-size">"#;

/// The share page between the size and the download name.
pub const SHARE_PAGE_AFTER_SIZE: &'static str = r#"</div>
        </div>
        <a href="/download" class="btn" style="margin-bottom: 12px; display: block; text-align: center; line-height: 1.2;">Download Natively (Fastest)</a>
        <button id="downloadBtn" onclick="startDownload()" class="btn" style="background: transparent; color: #17201b; border: 1px solid rgba(23, 32, 27, 0.2); box-shadow: none;">Download with Page Progress Bar</button>
        
        <div id="progressBox" class="progress-box">
            <div class="progress-track">
                <div id="progressBar" class="progress-bar"></div>
            </div>
            <div class="progress-stats">
                <span id="progressPercent">0%</span>
                <span id="speedText">0.00 MB/s</span>
            </div>
        </div>

        <div class="divider"></div>
        
        <div class="get-app-section">
            <div class="eyebrow" style="color: #355ba9;">MeshDrop Ecosystem</div>
            <h3>Install Native App</h3>
            <p id="osDetect">Detecting your system...</p>
            <a id="appDownloadBtn" href="/download-app" class="btn secondary-btn" style="display: none;">Download Installer</a>
        </div>
    </div>

    <script>
        window.onload = function() {
            const ua = navigator.userAgent;
            let os = "Unknown OS";
            let osParam = "unknown";
            let ext = "bin";

            if (ua.indexOf("Windows") !== -1) {
                os = "Windows";
                osParam = "windows";
                ext = "msi";
            } else if (ua.indexOf("Android") !== -1) {
                os = "Android";
                osParam = "android";
                ext = "apk";
            } else if (ua.indexOf("Mac") !== -1 || ua.indexOf("iPhone") !== -1 || ua.indexOf("iPad") !== -1) {
                os = "macOS / iOS";
                osParam = "macos";
                ext = "dmg";
            } else if (ua.indexOf("Linux") !== -1) {
                os = "Linux";
                osParam = "linux";
                ext = "deb";
            }

            const osDetect = document.getElementById("osDetect");
            const appDownloadBtn = document.getElementById("appDownloadBtn");

            osDetect.textContent = "Detected System: " + os;
            appDownloadBtn.href = "/download-app?os=" + osParam;
            appDownloadBtn.textContent = "Download MeshDrop for " + os + " (." + ext + ")";
            appDownloadBtn.style.display = "inline-block";
        };

        async function startDownload() {
            const btn = document.getElementById('downloadBtn');
            const progressBox = document.getElementById('progressBox');
            const progressBar = document.getElementById('progressBar');
            const progressPercent = document.getElementById('progressPercent');
            const speedText = document.getElementById('speedText');

            btn.style.display = 'none';
            progressBox.style.display = 'block';

            try {
                const response = await fetch('/download');
                if (!response.ok) throw new Error('Download failed');

                const reader = response.body.getReader();
                const contentLength = +response.headers.get('Content-Length') || 0;

                let receivedLength = 0;
                let chunks = [];
                let startTime = Date.now();

                while(true) {
                    const {done, value} = await reader.read();
                    if (done) break;

                    chunks.push(value);
                    receivedLength += value.length;

                    if (contentLength > 0) {
                        const percent = Math.round((receivedLength / contentLength) * 100);
                        progressBar.style.width = percent + '%';
                        progressPercent.textContent = percent + '%';
                    }

                    const elapsedSecs = (Date.now() - startTime) / 1000;
                    if (elapsedSecs > 0) {
                        const speedMB = (receivedLength / 1048576) / elapsedSecs;
                        speedText.textContent = speedMB.toFixed(2) + ' MB/s';
                    }
                }

                // Save triggers
                const blob = new Blob(chunks);
                const url = URL.createObjectURL(blob);
                const a = document.createElement('a');
                a.href = url;
                a.download = ""#;

/// The share page after the download name.
pub const SHARE_PAGE_TAIL: &'static str = r#"";
                document.body.appendChild(a);
                a.click();
                a.remove();
                URL.revokeObjectURL(url);

                progressPercent.textContent = 'Complete!';
                speedText.textContent = 'Saved successfully';
            } catch(err) {
                alert(err.message);
                btn.style.display = 'block';
                progressBox.style.display = 'none';
            }
        }
    </script>
</body>
</html>"#;

} // verus!
