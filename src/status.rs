//! Pairing status shown on the local pairing page.

use vstd::prelude::*;
use crate::text::push_str;

verus! {

/// State of the pairing as shown to the local user.
#[derive(Debug, Clone)]
pub enum ConnectionStatus {
    Waiting,
    Connected { peer: String, session_id: u64 },
    Disconnected,
}

/// Style class of the status line.
pub open spec fn class_text(s: ConnectionStatus) -> Seq<char> {
    match s {
        ConnectionStatus::Waiting => "waiting"@,
        ConnectionStatus::Connected { .. } => "connected"@,
        ConnectionStatus::Disconnected => "disconnected"@,
    }
}

/// Text of the status line.
pub open spec fn message_text(s: ConnectionStatus) -> Seq<char> {
    match s {
        ConnectionStatus::Waiting => "Waiting for connection..."@,
        ConnectionStatus::Connected { peer, .. } => "Connected to "@ + peer@,
        ConnectionStatus::Disconnected => "Disconnected"@,
    }
}

impl ConnectionStatus {
    /// Style class of the status line.
    pub fn class(&self) -> (c: &'static str)
        ensures
            c@ == class_text(*self),
    {
        match self {
            ConnectionStatus::Waiting => "waiting",
            ConnectionStatus::Connected { .. } => "connected",
            ConnectionStatus::Disconnected => "disconnected",
        }
    }

    /// Text of the status line.
    pub fn message(&self) -> (m: String)
        ensures
            m@ == message_text(*self),
    {
        match self {
            ConnectionStatus::Waiting => String::from_str("Waiting for connection..."),
            ConnectionStatus::Connected { peer, .. } => {
                let mut m = String::from_str("Connected to ");
                push_str(&mut m, peer.as_str());
                m
            },
            ConnectionStatus::Disconnected => String::from_str("Disconnected"),
        }
    }
}

/// Page text before the QR image.
pub const PAGE_HEAD: &'static str = "<!DOCTYPE html>
<html lang=\"en\">
<head>
    <meta charset=\"UTF-8\">
    <meta name=\"viewport\" content=\"width=device-width, initial-scale=1.0\">
    <title>Comacode Pairing</title>
    <style>
        :root {
            --ctp-base: #1E1E2E;
            --ctp-surface: #313244;
            --ctp-primary: #CBA6F7;
            --ctp-text: #CDD6F4;
            --ctp-green: #A6E3A1;
            --ctp-red: #F38BA8;
            --ctp-yellow: #F9E2AF;
            --ctp-overlay: #45475A;
        }
        body {
            background-color: var(--ctp-base);
            color: var(--ctp-text);
            font-family: -apple-system, BlinkMacSystemFont, \"Segoe UI\", Roboto, sans-serif;
            display: flex;
            justify-content: center;
            align-items: center;
            min-height: 100vh;
            margin: 0;
            padding: 20px;
        }
        .container {
            background-color: var(--ctp-surface);
            padding: 2rem;
            border-radius: 12px;
            box-shadow: 0 4px 6px rgba(0, 0, 0, 0.3);
            text-align: center;
            max-width: 500px;
            width: 90%;
        }
        h1 {
            color: var(--ctp-primary);
            margin-bottom: 0.5rem;
            font-size: 1.8rem;
        }
        .subtitle {
            color: var(--ctp-text);
            opacity: 0.7;
            margin-bottom: 2rem;
            font-size: 0.9rem;
        }
        .qr-container {
            background-color: white;
            padding: 1rem;
            border-radius: 8px;
            display: block;
            margin: 0 auto 1.5rem;
            width: 100%;
            max-width: 400px;
        }
        .qr-container svg {
            display: block;
            margin: 0 auto;
        }
        .status {
            font-size: 1.1rem;
            margin-bottom: 1rem;
            padding: 0.75rem;
            border-radius: 8px;
            background-color: var(--ctp-overlay);
            transition: all 0.3s ease;
        }
        .status.connected { color: var(--ctp-green); }
        .status.waiting { color: var(--ctp-yellow); }
        .status.disconnected { color: var(--ctp-red); }
        .status.error { color: var(--ctp-red); }
        .status.reconnect {
            animation: pulse 1.5s infinite;
        }
        @keyframes pulse {
            0%, 100% { opacity: 1; }
            50% { opacity: 0.5; }
        }
        .info {
            font-size: 0.8rem;
            color: var(--ctp-text);
            opacity: 0.6;
            margin-top: 2rem;
        }
    </style>
</head>
<body>
    <div class=\"container\">
        <h1>Comacode Pairing</h1>
        <p class=\"subtitle\">Scan with mobile app to connect</p>
        <div class=\"qr-container\">";

/// Page text between the QR image and the status class.
pub const PAGE_STATUS_OPEN: &'static str = "</div>
        <div id=\"status\" class=\"status ";

/// Page text between the status class and the status message.
pub const PAGE_STATUS_TEXT: &'static str = "\">";

/// Page text after the status message.
pub const PAGE_TAIL: &'static str = "</div>
        <p class=\"info\">Keep this window open while connected</p>
    </div>
    <script>
        const RECONNECT_DELAY = 1000; // Constant 1s for localhost
        let reconnectAttempts = 0;
        let evtSource = null;
        let reconnectTimeout = null;

        function connectSSE() {
            // Clear any pending reconnect
            if (reconnectTimeout) {
                clearTimeout(reconnectTimeout);
                reconnectTimeout = null;
            }

            evtSource = new EventSource('/api/status');

            evtSource.onopen = () => {
                reconnectAttempts = 0;
                const statusEl = document.getElementById('status');
                statusEl.classList.remove('error', 'reconnect');
            };

            evtSource.onmessage = (event) => {
                const status = JSON.parse(event.data);
                const statusEl = document.getElementById('status');
                statusEl.textContent = status.message;
                statusEl.className = 'status ' + status.status;
            };

            evtSource.onerror = () => {
                evtSource.close();
                reconnectAttempts++;
                const statusEl = document.getElementById('status');

                if (reconnectAttempts > 3) {
                    statusEl.textContent = 'Connection lost. Reconnecting...';
                    statusEl.classList.add('error', 'reconnect');
                }

                // Constant 1s backoff - immediate for localhost UX
                reconnectTimeout = setTimeout(connectSSE, RECONNECT_DELAY);
            };
        }

        connectSSE();
    </script>
</body>
</html>";

/// Renders the pairing page around an SVG QR image.
pub struct HtmlTemplate;

impl HtmlTemplate {
    /// The page with the QR image and the current status filled in.
    pub fn render(qr_svg: &str, status: &ConnectionStatus) -> (html: String)
        ensures
            html@ == PAGE_HEAD@ + qr_svg@ + PAGE_STATUS_OPEN@ + class_text(*status) + PAGE_STATUS_TEXT@
                + message_text(*status) + PAGE_TAIL@,
    {
        let mut html = String::from_str(PAGE_HEAD);
        push_str(&mut html, qr_svg);
        push_str(&mut html, PAGE_STATUS_OPEN);
        push_str(&mut html, status.class());
        push_str(&mut html, PAGE_STATUS_TEXT);
        let m = status.message();
        push_str(&mut html, m.as_str());
        push_str(&mut html, PAGE_TAIL);
        html
    }
}

} // verus!
