//! The pages that the broker serves.
use vstd::prelude::*;

verus! {

/// The host page served at `GET /ui`: it shows the frames that agents render.
pub const HOST_PAGE: &'static str = r##"<!DOCTYPE html>
<html>
<head>
  <meta charset="utf-8">
  <title>clawshake ui</title>
  <style>
    * { box-sizing: border-box; }
    html, body { height: 100%; overflow: hidden; }
    body { margin: 0; font-family: system-ui, -apple-system, sans-serif;
           background: #1a1a1a; color: #e0e0e0; }
    /* Status: fixed dot, invisible when connected */
    #status { position: fixed; bottom: 10px; right: 10px;
              width: 8px; height: 8px; border-radius: 50%;
              font-size: 0; background: #555;
              opacity: 0; transition: opacity 0.4s;
              z-index: 1000; pointer-events: none; }
    #status.connected   { opacity: 0; background: #6c6; }
    #status.disconnected { opacity: 1; background: #c66; }
    .frame-container { display: flex; flex-wrap: wrap; gap: 12px; padding: 12px; height: 100vh; }
    /* Single frame: fill viewport */
    .frame-container:has(.frame-wrapper:only-child) { padding: 0; gap: 0; }
    .frame-container:has(.frame-wrapper:only-child) .frame-wrapper {
      border: none; border-radius: 0; resize: none; width: 100vw; height: 100vh; }
    .frame-wrapper { border: 1px solid #333; border-radius: 6px;
                     display: flex; flex-direction: column;
                     resize: both; overflow: hidden; position: relative;
                     min-width: 200px; min-height: 120px; background: #1a1a1a; }
    /* Frame header: hover-only overlay */
    .frame-header { position: absolute; top: 0; left: 0; right: 0; z-index: 10;
                    padding: 5px 10px; background: rgba(20,20,20,0.82);
                    backdrop-filter: blur(6px); font-size: 13px;
                    display: flex; justify-content: space-between; align-items: center;
                    opacity: 0; transition: opacity 0.18s; pointer-events: none; }
    .frame-wrapper:hover .frame-header { opacity: 1; pointer-events: auto; }
    .frame-header .title { font-weight: 500; }
    .frame-header .close { cursor: pointer; opacity: 0.5; font-size: 16px; padding: 0 4px; }
    .frame-header .close:hover { opacity: 1; }
    iframe { border: none; display: block; background: #fff; flex: 1; width: 100%; min-height: 0; }
    .empty { padding: 40px; text-align: center; color: #555; }
  </style>
</head>
<body>
  <div id="status" class="disconnected">disconnected</div>
  <div class="frame-container" id="frames">
    <div class="empty" id="empty-msg">Waiting for agent to render UI&hellip;</div>
  </div>
  <script>
    let ws;
    const frames = {};

    // Filters:
    //   ?frame=abc  — show only that one frame
    //   ?window=xyz — show frames targeted at xyz + broadcast frames
    //   (no params) — compositor mode: broadcast frames only (targeted frames excluded)
    const _params = new URLSearchParams(location.search);
    const frameFilter = _params.get('frame'); // null = no restriction
    const windowFilter = _params.get('window'); // null = untagged/broadcast only

    function accepts(frame_id, target_window) {
      if (frameFilter && frameFilter !== frame_id) return false;
      // Targeted frames only appear in their designated window.
      // Broadcast frames (target_window == null) appear everywhere.
      if (target_window && target_window !== windowFilter) return false;
      return true;
    }

    function connect() {
      const proto = location.protocol === 'https:' ? 'wss:' : 'ws:';
      const wsUrl = proto + '//' + location.host + '/ui/ws';
      document.getElementById('status').textContent = 'connecting…';
      ws = new WebSocket(wsUrl);

      ws.onopen = () => {
        document.getElementById('status').textContent = 'connected';
        document.getElementById('status').className = 'connected';
      };
      ws.onerror = () => {
        document.getElementById('status').textContent = 'connection error';
      };
      ws.onclose = () => {
        document.getElementById('status').textContent = 'disconnected — reconnecting…';
        document.getElementById('status').className = 'disconnected';
        setTimeout(connect, 2000);
      };
      ws.onmessage = (e) => {
        let msg;
        try { msg = JSON.parse(e.data); } catch { return; }
        if (msg.type === 'render') renderFrame(msg);
        else if (msg.type === 'push') pushToFrame(msg);
        else if (msg.type === 'close') closeFrame(msg.frame_id);
        else if (msg.type === 'snapshot_request') handleSnapshot(msg);
        // Window control messages
        else if (msg.type === 'window_open') handleWindowOpen(msg);
        else if (msg.type === 'window_close') handleWindowClose(msg);
        else if (msg.type === 'window_resize') handleWindowResize(msg);
        else if (msg.type === 'window_set_title') handleWindowSetTitle(msg);
        else if (msg.type === 'window_focus') handleWindowFocus(msg);
        else if (msg.type === 'window_notify') handleWindowNotify(msg);
      };
    }
    connect();

    // -----------------------------------------------------------------------
    // Window control handlers
    // -----------------------------------------------------------------------

    const isTauri = !!(window.__TAURI__);

    async function handleWindowOpen({ label, title, url, width, height }) {
      if (isTauri) {
        try {
          const { WebviewWindow } = window.__TAURI__.webviewWindow;
          const webview = new WebviewWindow(label, {
            title: title || 'clawshake',
            url: url || ('/ui'),
            width: width || 1200,
            height: height || 800,
          });
          webview.once('tauri://error', (e) => console.error('window_open error:', e));
        } catch (e) { console.error('window_open failed:', e); }
      } else {
        // Browser fallback: open a new tab/popup.
        const target = url || location.href;
        window.open(target, label || '_blank', `width=${width||1200},height=${height||800}`);
      }
    }

    async function handleWindowClose({ label }) {
      if (isTauri) {
        try {
          const { WebviewWindow } = window.__TAURI__.webviewWindow;
          const win = WebviewWindow.getByLabel(label || 'main');
          if (win) await win.close();
        } catch (e) { console.error('window_close failed:', e); }
      }
      // Browser: no reliable way to close tabs we didn't open.
    }

    async function handleWindowResize({ label, width, height }) {
      if (isTauri) {
        try {
          const { WebviewWindow } = window.__TAURI__.webviewWindow;
          const { LogicalSize } = window.__TAURI__.dpi;
          const win = WebviewWindow.getByLabel(label || 'main');
          if (win) await win.setSize(new LogicalSize(width, height));
        } catch (e) { console.error('window_resize failed:', e); }
      }
      // Browser: cannot resize window programmatically.
    }

    async function handleWindowSetTitle({ label, title }) {
      if (isTauri) {
        try {
          const { WebviewWindow } = window.__TAURI__.webviewWindow;
          const win = WebviewWindow.getByLabel(label || 'main');
          if (win) await win.setTitle(title);
        } catch (e) { console.error('window_set_title failed:', e); }
      } else {
        // Browser fallback: change document title.
        document.title = title;
      }
    }

    async function handleWindowFocus({ label }) {
      if (isTauri) {
        try {
          const { WebviewWindow } = window.__TAURI__.webviewWindow;
          const win = WebviewWindow.getByLabel(label || 'main');
          if (win) await win.setFocus();
        } catch (e) { console.error('window_focus failed:', e); }
      } else {
        window.focus();
      }
    }

    async function handleWindowNotify({ title, body }) {
      if (isTauri) {
        try {
          const { sendNotification, isPermissionGranted, requestPermission } = window.__TAURI__.notification;
          let ok = await isPermissionGranted();
          if (!ok) ok = (await requestPermission()) === 'granted';
          if (ok) sendNotification({ title, body: body || '' });
        } catch (e) { console.error('window_notify failed:', e); }
      } else {
        // Browser Web Notifications API.
        if (Notification.permission === 'granted') {
          new Notification(title, { body: body || '' });
        } else if (Notification.permission !== 'denied') {
          Notification.requestPermission().then(p => {
            if (p === 'granted') new Notification(title, { body: body || '' });
          });
        }
      }
    }

    function hideEmpty() {
      const el = document.getElementById('empty-msg');
      if (el) el.style.display = 'none';
    }

    function renderFrame({ frame_id, src, title, width, height, window: targetWindow }) {
      if (!accepts(frame_id, targetWindow)) return;
      hideEmpty();
      let wrapper = frames[frame_id];
      if (wrapper) {
        // Update existing frame
        const iframe = wrapper.querySelector('iframe');
        iframe.src = src;
        wrapper.style.width  = (width  || 800) + 'px';
        wrapper.style.height = (height || 600) + 'px';
        const titleEl = wrapper.querySelector('.title');
        if (titleEl) titleEl.textContent = title || 'Agent UI';
        return;
      }
      // Create new frame
      wrapper = document.createElement('div');
      wrapper.className = 'frame-wrapper';
      wrapper.dataset.frameId = frame_id;
      wrapper.style.width  = (width  || 800) + 'px';
      wrapper.style.height = (height || 600) + 'px';

      const header = document.createElement('div');
      header.className = 'frame-header';
      header.innerHTML =
        '<span class="title">' + (title || 'Agent UI') + '</span>' +
        '<span class="close" title="Close">&times;</span>';
      header.querySelector('.close').onclick = () => {
        closeFrame(frame_id);
        ws.send(JSON.stringify({ type: 'close', frame_id }));
      };

      const iframe = document.createElement('iframe');
      const isExternal = src.startsWith('http') && !src.includes(location.host);
      iframe.sandbox = isExternal
        ? 'allow-scripts allow-same-origin'
        : 'allow-scripts';
      iframe.src = src;

      wrapper.appendChild(header);
      wrapper.appendChild(iframe);
      document.getElementById('frames').appendChild(wrapper);
      frames[frame_id] = wrapper;

      // Relay postMessage from iframe -> WebSocket -> EventQueue
      window.addEventListener('message', function handler(e) {
        if (e.source !== iframe.contentWindow) return;
        if (!e.data || typeof e.data.event !== 'string') return;
        const payload = JSON.stringify({
          type: 'interaction',
          frame_id: frame_id,
          event: e.data.event,
          id: e.data.id || '',
          data: e.data.data || {}
        });
        if (payload.length <= 65536 && ws.readyState === 1) {
          ws.send(payload);
        }
      });
    }

    function pushToFrame({ frame_id, data }) {
      if (!accepts(frame_id)) return;
      const wrapper = frames[frame_id];
      if (!wrapper) return;
      const iframe = wrapper.querySelector('iframe');
      if (iframe && iframe.contentWindow) {
        iframe.contentWindow.postMessage(data, '*');
      }
    }

    function closeFrame(frame_id) {
      if (!accepts(frame_id)) return;
      const wrapper = frames[frame_id];
      if (wrapper) {
        wrapper.remove();
        delete frames[frame_id];
      }
    }

    function handleSnapshot({ frame_id, format, request_id }) {
      if (!accepts(frame_id)) return; // not our frame — another host page will respond
      const wrapper = frames[frame_id];
      if (!wrapper) {
        ws.send(JSON.stringify({
          type: 'snapshot_response', request_id,
          error: 'frame not found'
        }));
        return;
      }
      const iframe = wrapper.querySelector('iframe');
      // Try direct same-origin access first (only works if allow-same-origin is set).
      try {
        let result;
        if (format === 'html') {
          result = iframe.contentDocument.documentElement.outerHTML;
        } else {
          result = iframe.contentDocument.body.innerText;
        }
        ws.send(JSON.stringify({ type: 'snapshot_response', request_id, result }));
        return;
      } catch (_) { /* sandboxed null-origin — fall through to postMessage */ }
      // Cross-origin fallback via postMessage bridge injected into inline frames.
      let settled = false;
      const listener = function(e) {
        if (e.source !== iframe.contentWindow) return;
        if (!e.data || e.data.type !== 'snapshot_response') return;
        if (e.data.request_id !== request_id) return;
        if (settled) return;
        settled = true;
        window.removeEventListener('message', listener);
        if (e.data.error) {
          ws.send(JSON.stringify({ type: 'snapshot_response', request_id, error: e.data.error }));
        } else {
          ws.send(JSON.stringify({ type: 'snapshot_response', request_id, result: e.data.result }));
        }
      };
      window.addEventListener('message', listener);
      iframe.contentWindow.postMessage({ type: 'snapshot_request', request_id, format: format || 'text' }, '*');
      setTimeout(function() {
        if (settled) return;
        settled = true;
        window.removeEventListener('message', listener);
        ws.send(JSON.stringify({ type: 'snapshot_response', request_id, error: 'snapshot timed out' }));
      }, 5000);
    }
  </script>
</body>
</html>"##;

/// Content Security Policy for inline frames: inline scripts and styles, and no
/// access to the network.  The page talks to the agent by messages.
pub const INLINE_CSP: &'static str = "default-src 'none'; script-src 'unsafe-inline'; style-src 'unsafe-inline'; img-src data: blob:; font-src data:;";

/// The script that lets the host page ask an inline frame for a snapshot.
pub const SNAPSHOT_SCRIPT: &'static str = r#"<script>
(function() {
  window.addEventListener('message', function(e) {
    if (e.source !== window.parent) return;
    var msg = e.data;
    if (!msg || msg.type !== 'snapshot_request') return;
    try {
      var result = msg.format === 'html'
        ? document.documentElement.outerHTML
        : (document.body ? document.body.innerText : '');
      window.parent.postMessage({ type: 'snapshot_response', request_id: msg.request_id, result: result }, '*');
    } catch(err) {
      window.parent.postMessage({ type: 'snapshot_response', request_id: msg.request_id, error: String(err) }, '*');
    }
  });
})();
</script>"#;

/// The login page.
pub const LOGIN_HTML: &'static str = r#"<!DOCTYPE html>
<html>
<head>
  <meta charset="utf-8">
  <meta name="viewport" content="width=device-width, initial-scale=1">
  <title>clawshake — login</title>
  <style>
    body { font-family: system-ui, sans-serif; background: #1a1a1a; color: #e0e0e0;
           display: flex; align-items: center; justify-content: center;
           min-height: 100vh; margin: 0; }
    form { background: #222; padding: 32px; border-radius: 8px;
           display: flex; flex-direction: column; gap: 16px; min-width: 300px; }
    input { padding: 10px; border: 1px solid #444; border-radius: 4px;
            background: #1a1a1a; color: #e0e0e0; font-size: 16px; }
    button { padding: 10px; border: none; border-radius: 4px;
             background: #4a9eff; color: #fff; font-size: 16px; cursor: pointer; }
    button:hover { background: #3a8eef; }
    h2 { margin: 0; font-size: 18px; }
  </style>
</head>
<body>
  <form method="POST" action="/ui/login">
    <h2>clawshake</h2>
    <input type="password" name="token" placeholder="Access token" required autofocus>
    <button type="submit">Sign in</button>
  </form>
</body>
</html>
"#;

} // verus!
